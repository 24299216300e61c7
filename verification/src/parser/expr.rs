//! Expressions from assignments down to left hand sides and arguments.
use vstd::prelude::*;
use vstd::string::StringExecFns;
use crate::ast::{
    ArrowFunctionBody, ArrowFunctionExpr, AssignmentExpr, AssignmentLeft, BinaryExpr,
    BinaryOperator, CallExpr, LogicalOperator, ConditionalExpr, Expr, FunctionArg, LogicalExpr, MemberExpr,
    MetaProperty, NewExpr, Pat, TaggedTemplateExpr, UnaryExpr, UpdateExpr, UpdateOperator,
    YieldExpr,
};
use crate::error::ParseError;
use crate::parser::rules::{lemma_precedence_has_operator, spec_unary_operator};
use crate::parser::{closes, is_assign_punct, simple_token, simple_tree, CommentHandler, Flag, Parser, Res};
use crate::tokens::{str_eq, Keyword, Punct, TokItem, TokKind};

verus! {

/// What a cover expression turns out to be: the parameter list of an arrow
/// function, or the expression itself.
pub enum CoverFormals {
    Params(Vec<FunctionArg>),
    NotFormals(Expr),
}

/// The expression that the operator `op` makes of its two operands: `&&`
/// and `||` a logical one, the other binary operators a binary one.
pub open spec fn joined(op: TokItem, left: Expr, right: Expr) -> Expr {
    if op.spec_is_punct(Punct::DoubleAmpersand) {
        Expr::Logical(LogicalExpr { operator: LogicalOperator::And, left: Box::new(left), right: Box::new(right) })
    } else if op.spec_is_punct(Punct::DoublePipe) {
        Expr::Logical(LogicalExpr { operator: LogicalOperator::Or, left: Box::new(left), right: Box::new(right) })
    } else {
        Expr::Binary(
            BinaryExpr {
                operator: crate::parser::rules::spec_binary_operator(op)->Some_0,
                left: Box::new(left),
                right: Box::new(right),
            },
        )
    }
}

impl<'a, CH: CommentHandler> Parser<'a, CH> {
    #[verifier::spinoff_prover]
    #[verifier::rlimit(100)]
    pub(crate) fn parse_assignment_expr(&mut self) -> (r: Res<Expr>)
        requires
            old(self).inv(),
        ensures
            final(self).moved(*old(self), r is Ok),
            old(self).simple_ahead() ==> r == Ok::<Expr, ParseError>(simple_tree(old(self).look_ahead))
                && Self::read_once(*old(self), *final(self)),
        decreases old(self).rank(), 9nat,
    {
        if !self.context.allow_yield && self.at_keyword(Keyword::Yield) {
            return self.parse_yield_expr();
        }
        let start_text = self.look_ahead.text.clone();
        let start_pos = self.look_ahead_position;
        let mut current = self.parse_conditional_expr()?;
        let curr_line = self.look_ahead_position.line;
        let start_line = start_pos.line;
        if str_eq(start_text.as_str(), "async") && curr_line == start_line && (
        self.look_ahead.is_ident() || self.at_keyword(Keyword::Yield)) {
            let arg = self.parse_primary_expression()?;
            let arg = self.reinterpret_expr_as_pat(arg)?;
            let arg = FunctionArg::Pat(arg);
            current = Expr::ArrowParamPlaceHolder(vec![arg], true);
        }
        let ghost m1 = *self;
        let r = self.finish_assignment(current);
        proof {
            if old(self).simple_ahead() {
                Self::lemma_read_once_frame(*old(self), *old(self), m1, *self);
            }
        }
        r
    }

    /// The rest of an assignment expression after its first operand
    /// `current`: an arrow function where `current` is its parameter list or
    /// `=>` follows, an assignment where an assignment operator follows, or
    /// else `current` itself.
    #[verifier::spinoff_prover]
    #[verifier::rlimit(100)]
    fn finish_assignment(&mut self, current: Expr) -> (r: Res<Expr>)
        requires
            old(self).inv(),
        ensures
            final(self).stepped(*old(self)),
            !(current is ArrowParamPlaceHolder) && !(old(self).look_ahead.kind matches TokKind::Punct(p)
                && is_assign_punct(p)) && !old(self).look_ahead.spec_is_punct(Punct::EqualGreaterThan)
                ==> r == Ok::<
                Expr,
                ParseError,
            >(current) && final(self).look_ahead == old(self).look_ahead && final(self).cursor == old(
                self,
            ).cursor && final(self).scanner_eof == old(self).scanner_eof
                && final(self).scanner_errored == old(self).scanner_errored,
        decreases old(self).rank(), 9nat,
    {
        let mut current = current;
        if Self::is_arrow_param_placeholder(&current) || self.at_punct(Punct::EqualGreaterThan) {
            self.context.is_assignment_target = false;
            self.context.is_binding_element = false;
            let is_async = Self::is_async(&current);
            match self.reinterpret_as_cover_formals_list(current)? {
                CoverFormals::Params(params) => {
                    self.expect_punct(Punct::EqualGreaterThan)?;
                    if self.at_punct(Punct::OpenBrace) {
                        let prev_in = self.context.allow_in;
                        let prev_strict = self.context.strict;
                        self.set_flag(Flag::AllowIn, true);
                        let body = self.parse_function_source_el()?;
                        self.set_flag(Flag::AllowIn, prev_in);
                        self.set_flag(Flag::Strict, prev_strict);
                        Ok(
                            Expr::ArrowFunction(
                                ArrowFunctionExpr {
                                    id: None,
                                    expression: false,
                                    generator: false,
                                    is_async,
                                    params,
                                    body: ArrowFunctionBody::FunctionBody(body),
                                },
                            ),
                        )
                    } else {
                        let (prev_bind, prev_assign, prev_first) = self.isolate_cover_grammar();
                        let a = self.parse_assignment_expr()?;
                        self.set_isolate_cover_grammar_state(prev_bind, prev_assign, prev_first)?;
                        Ok(
                            Expr::ArrowFunction(
                                ArrowFunctionExpr {
                                    id: None,
                                    expression: true,
                                    generator: false,
                                    is_async,
                                    params,
                                    body: ArrowFunctionBody::Expr(Box::new(a)),
                                },
                            ),
                        )
                    }
                },
                CoverFormals::NotFormals(e) => Ok(e),
            }
        } else {
            if self.at_assign() {
                if !self.context.is_assignment_target {
                    if !self.config.tolerant {
                        return self.unexpected_token_error(
                            &self.look_ahead,
                            "Not at assignment target",
                        );
                    }
                }
                if self.context.strict {
                    if let Expr::Ident(i) = &current {
                        if Self::is_restricted_word(i.as_str()) || Self::is_strict_reserved(
                            i.as_str(),
                        ) {
                            let mut m = String::from_str("not ");
                            m.append(i.as_str());
                            return self.expected_token_error(&self.look_ahead, &[m.as_str()]);
                        }
                    }
                }
                if !self.at_punct(Punct::Equal) {
                    self.context.is_assignment_target = false;
                    self.context.is_binding_element = false;
                }
                let left = AssignmentLeft::Expr(Box::new(current));
                let item = self.next_item()?;
                let expected: [&str; 13] = [
                    "=",
                    "+=",
                    "-=",
                    "/=",
                    "*=",
                    "**=",
                    "|=",
                    "&=",
                    "~=",
                    "%=",
                    "<<=",
                    ">>=",
                    ">>>=",
                ];
                let op = match &item.kind {
                    crate::tokens::TokKind::Punct(p) => match Self::assignment_operator(*p) {
                        Some(op) => op,
                        None => {
                            return self.expected_token_error(&item, &expected);
                        },
                    },
                    _ => {
                        return self.expected_token_error(&item, &expected);
                    },
                };
                let (prev_bind, prev_assign, prev_first) = self.isolate_cover_grammar();
                let right = self.parse_assignment_expr()?;
                self.set_isolate_cover_grammar_state(prev_bind, prev_assign, prev_first)?;
                self.context.first_covert_initialized_name_error = None;
                return Ok(
                    Expr::Assignment(
                        AssignmentExpr { operator: op, left, right: Box::new(right) },
                    ),
                );
            }
            Ok(current)
        }
    }

    /// Read a cover expression as the parameters of an arrow function: an
    /// identifier, or an arrow parameter list whose defaults are no
    /// `yield` with an argument (a bare `yield` default becomes the name
    /// `yield`) and, for an async arrow, whose names are no `await`.  Any
    /// other expression is handed back.
    pub(crate) fn reinterpret_as_cover_formals_list(&self, expr: Expr) -> (r: Res<CoverFormals>)
        requires
            self.inv(),
        ensures
            !(expr is Ident || expr is ArrowParamPlaceHolder) ==> r == Ok::<CoverFormals, ParseError>(
                CoverFormals::NotFormals(expr),
            ),
            (expr is Ident || expr is ArrowParamPlaceHolder) ==> !(r matches Ok(CoverFormals::NotFormals(_))),
    {
        if !(Self::is_ident(&expr) || Self::is_arrow_param_placeholder(&expr)) {
            return Ok(CoverFormals::NotFormals(expr));
        }
        let ghost cover = expr is Ident || expr is ArrowParamPlaceHolder;
        let (params, async_arrow) = match expr {
            Expr::Ident(i) => (vec![FunctionArg::Expr(Expr::Ident(i))], false),
            Expr::ArrowParamPlaceHolder(params, is_async) => (params, is_async),
            _ => (Vec::new(), false),
        };
        let mut invalid_param = false;
        let mut out: Vec<FunctionArg> = Vec::new();
        let mut rest = params;
        rest = crate::parser::reversed(rest);
        while rest.len() > 0
            invariant
                cover,
                cover == (expr is Ident || expr is ArrowParamPlaceHolder),
            decreases rest.len(),
        {
            let p = match rest.pop() {
                Some(p) => p,
                None => {
                    break;
                },
            };
            if Self::is_assignment(&p) {
                let replaced = match &p {
                    FunctionArg::Pat(Pat::Assignment(a)) => match &*a.right {
                        Expr::Yield(y) => {
                            if y.argument.is_some() {
                                invalid_param = true;
                                false
                            } else {
                                true
                            }
                        },
                        _ => false,
                    },
                    FunctionArg::Expr(Expr::Assignment(a)) => match &*a.right {
                        Expr::Yield(y) => {
                            if y.argument.is_some() {
                                invalid_param = true;
                                false
                            } else {
                                true
                            }
                        },
                        _ => false,
                    },
                    _ => false,
                };
                if replaced {
                    let is_pat = match &p {
                        FunctionArg::Pat(_) => true,
                        _ => false,
                    };
                    if is_pat {
                        out.push(FunctionArg::Pat(Pat::Identifier(String::from_str("yield"))));
                    } else {
                        out.push(FunctionArg::Expr(Expr::Ident(String::from_str("yield"))));
                    }
                } else {
                    out.push(p);
                }
            } else if async_arrow && Self::is_await(&p) {
                invalid_param = true;
                out.push(p);
            } else {
                out.push(p);
            }
        }
        if invalid_param {
            return self.expected_token_error(
                &self.look_ahead,
                &["not a yield expression in a function param"],
            );
        }
        if self.context.strict && !self.context.allow_yield {
            let mut i: usize = 0;
            while i < out.len()
                invariant
                    self.inv(),
                    cover,
                    cover == (expr is Ident || expr is ArrowParamPlaceHolder),
                decreases out.len() - i,
            {
                if let FunctionArg::Expr(Expr::Yield(_)) = &out[i] {
                    return self.expected_token_error(
                        &self.look_ahead,
                        &["not a yield expression in a function param"],
                    );
                }
                i = i + 1;
            }
        }
        Ok(CoverFormals::Params(out))
    }

    #[verifier::rlimit(100)]
    #[verifier::spinoff_prover]
    pub(crate) fn parse_yield_expr(&mut self) -> (r: Res<Expr>)
        requires
            old(self).inv(),
        ensures
            final(self).moved(*old(self), r is Ok),
            r matches Ok(e) ==> e is Yield,
        decreases old(self).rank(), 1nat,
    {
        self.expect_keyword(Keyword::Yield)?;
        let mut arg: Option<Box<Expr>> = None;
        let mut delegate = false;
        if !self.has_line_term {
            let prev_yield = self.context.allow_yield;
            self.set_flag(Flag::AllowYield, false);
            delegate = self.at_punct(Punct::Asterisk);
            if delegate {
                let _start = self.next_item()?;
                arg = Some(Box::new(self.parse_assignment_expr()?));
            } else if self.is_start_of_expr() {
                arg = Some(Box::new(self.parse_assignment_expr()?));
            }
            self.set_flag(Flag::AllowYield, prev_yield);
        }
        Ok(Expr::Yield(YieldExpr { argument: arg, delegate }))
    }

    #[verifier::spinoff_prover]
    #[verifier::rlimit(40)]
    pub(crate) fn parse_conditional_expr(&mut self) -> (r: Res<Expr>)
        requires
            old(self).inv(),
        ensures
            final(self).moved(*old(self), r is Ok),
            old(self).simple_ahead() ==> r == Ok::<Expr, ParseError>(simple_tree(old(self).look_ahead))
                && Self::read_once(*old(self), *final(self)),
            old(self).cond_simple_ahead() ==> r == Ok::<Expr, ParseError>(
                Expr::Conditional(
                    ConditionalExpr {
                        test: Box::new(simple_tree(old(self).look_ahead)),
                        alternate: Box::new(simple_tree(old(self).ahead(3))),
                        consequent: Box::new(simple_tree(old(self).ahead(1))),
                    },
                ),
            ),
        decreases old(self).rank(), 8nat,
    {
        let ghost s0 = *self;
        let ghost cs = s0.cond_simple_ahead();
        let (prev_bind, prev_assign, prev_first) = self.inherit_cover_grammar();
        let ghost m0 = *self;
        proof {
            if cs {
                assert(s0.next_token() == s0.ahead(0));
                assert(m0.atom_alone());
            }
        }
        let expr = self.parse_binary_expression()?;
        let ghost m1 = *self;
        self.set_inherit_cover_grammar_state(prev_bind, prev_assign, prev_first);
        proof {
            if old(self).simple_ahead() || cs {
                Self::lemma_read_once_frame(*old(self), m0, m1, *self);
            }
            if cs {
                assert(s0.can_read(4 + 1));
                self.lemma_can_read_advance(3);
            }
        }
        if self.at_punct(Punct::QuestionMark) {
            let ghost q0 = *self;
            let _question_mark = self.next_item()?;
            let ghost q1 = *self;
            proof {
                if cs {
                    Self::lemma_read_one(q0, q1);
                    Self::lemma_reads_compose(s0, q0, q1, 1, 1);
                    assert(q0.ahead(0) == s0.ahead(0 + 1));
                }
            }
            let prev_in = self.context.allow_in;
            self.set_flag(Flag::AllowIn, true);
            let (prev_bind, prev_assign, prev_first) = self.isolate_cover_grammar();
            let ghost q2 = *self;
            proof {
                if cs {
                    reveal(crate::parser::with_flag);
                    Self::lemma_reads_same(q1, q2);
                    Self::lemma_reads_compose(s0, q1, q2, 2, 0);
                    assert(s0.can_read(3 + 2));
                    q2.lemma_can_read_advance(2);
                    assert(q2.ahead(0) == s0.ahead(0 + 2));
                    assert(q2.next_token() == q2.ahead(0));
                    assert(q2.context.allow_in);
                    assert(q2.simple_ahead());
                }
            }
            let if_true = self.parse_assignment_expr()?;
            let ghost q3 = *self;
            self.set_isolate_cover_grammar_state(prev_bind, prev_assign, prev_first)?;
            self.set_flag(Flag::AllowIn, prev_in);
            let ghost q4 = *self;
            proof {
                if cs {
                    reveal(crate::parser::with_flag);
                    Self::lemma_reads_same(q3, q4);
                    Self::lemma_reads_compose(s0, q2, q3, 2, 1);
                    Self::lemma_reads_compose(s0, q3, q4, 3, 0);
                    assert(s0.can_read(2 + 3));
                    q4.lemma_can_read_advance(1);
                    assert(q4.context.allow_in == s0.context.allow_in);
                }
            }
            self.expect_punct(Punct::Colon)?;
            let ghost q45 = *self;
            let (prev_bind, prev_assign, prev_first) = self.isolate_cover_grammar();
            let ghost q5 = *self;
            proof {
                if cs {
                    Self::lemma_read_one(q4, q45);
                    Self::lemma_reads_same(q45, q5);
                    Self::lemma_reads_compose(s0, q4, q45, 3, 1);
                    Self::lemma_reads_compose(s0, q45, q5, 4, 0);
                    assert(q4.ahead(0) == s0.ahead(0 + 3));
                    assert(s0.can_read(1 + 4));
                    q5.lemma_can_read_advance(0);
                    assert(q5.ahead(0) == s0.ahead(0 + 4));
                    assert(q5.next_token() == q5.ahead(0));
                    assert(q5.simple_ahead());
                }
            }
            let if_false = self.parse_assignment_expr()?;
            self.set_isolate_cover_grammar_state(prev_bind, prev_assign, prev_first)?;
            let c = ConditionalExpr {
                test: Box::new(expr),
                alternate: Box::new(if_false),
                consequent: Box::new(if_true),
            };
            self.context.is_assignment_target = false;
            self.context.is_binding_element = false;
            return Ok(Expr::Conditional(c));
        }
        Ok(expr)
    }

    /// Join the operator `op` with its two operands: `&&` and `||` make a
    /// logical expression, the other operators a binary one.
    fn join_binary(&self, op: &TokItem, left: Expr, right: Expr) -> (r: Res<Expr>)
        requires
            op.spec_is_punct(Punct::DoubleAmpersand) || op.spec_is_punct(Punct::DoublePipe)
                || crate::parser::rules::spec_binary_operator(*op) is Some,
        ensures
            op.spec_is_punct(Punct::DoubleAmpersand) ==> r == Ok::<Expr, ParseError>(
                Expr::Logical(
                    LogicalExpr {
                        operator: LogicalOperator::And,
                        left: Box::new(left),
                        right: Box::new(right),
                    },
                ),
            ),
            op.spec_is_punct(Punct::DoublePipe) ==> r == Ok::<Expr, ParseError>(
                Expr::Logical(
                    LogicalExpr {
                        operator: LogicalOperator::Or,
                        left: Box::new(left),
                        right: Box::new(right),
                    },
                ),
            ),
            r == Ok::<Expr, ParseError>(joined(*op, left, right)),
            !op.spec_is_punct(Punct::DoubleAmpersand) && !op.spec_is_punct(Punct::DoublePipe)
                ==> r == Ok::<Expr, ParseError>(
                Expr::Binary(
                    BinaryExpr {
                        operator: crate::parser::rules::spec_binary_operator(*op)->Some_0,
                        left: Box::new(left),
                        right: Box::new(right),
                    },
                ),
            ),
    {
        if op.matches_punct(Punct::DoubleAmpersand) || op.matches_punct(Punct::DoublePipe) {
            match Self::logical_operator(op) {
                Some(operator) => Ok(
                    Expr::Logical(
                        LogicalExpr { operator, left: Box::new(left), right: Box::new(right) },
                    ),
                ),
                None => Err(self.op_error("Unable to convert logical operator")),
            }
        } else {
            match Self::binary_operator(op) {
                Some(operator) => Ok(
                    Expr::Binary(BinaryExpr { operator, left: Box::new(left), right: Box::new(right) }),
                ),
                None => Err(self.op_error("Unable to convert binary operator")),
            }
        }
    }

    #[verifier::spinoff_prover]
    #[verifier::rlimit(100)]
    pub(crate) fn parse_binary_expression(&mut self) -> (r: Res<Expr>)
        requires
            old(self).inv(),
        ensures
            final(self).moved(*old(self), r is Ok),
            old(self).simple_ahead() ==> r == Ok::<Expr, ParseError>(simple_tree(old(self).look_ahead))
                && Self::read_once(*old(self), *final(self)),
            old(self).atom_alone() ==> r == Ok::<Expr, ParseError>(simple_tree(old(self).look_ahead)) && Self::read_once(
                *old(self),
                *final(self),
            ) && final(self).context.allow_in == old(self).context.allow_in,
            old(self).binary_pair_ahead() ==> r == Ok::<Expr, ParseError>(
                joined(old(self).ahead(0), simple_tree(old(self).look_ahead), simple_tree(old(self).ahead(1))),
            ),
            old(self).binary_triple_ahead() ==> r == Ok::<Expr, ParseError>(
                joined(
                    old(self).ahead(2),
                    joined(
                        old(self).ahead(0),
                        simple_tree(old(self).look_ahead),
                        simple_tree(old(self).ahead(1)),
                    ),
                    simple_tree(old(self).ahead(3)),
                ),
            ),
        decreases old(self).rank(), 7nat,
    {
        let ghost s0 = *self;
        let ghost pair = s0.binary_pair_ahead();
        let ghost triple = s0.binary_triple_ahead();
        let ghost lead = s0.binary_lead_ahead();
        let (prev_bind, prev_assign, prev_first) = self.inherit_cover_grammar();
        let ghost m0 = *self;
        let current = self.parse_exponentiation_expression()?;
        let ghost m1 = *self;
        self.set_inherit_cover_grammar_state(prev_bind, prev_assign, prev_first);
        proof {
            if old(self).atom_ahead() {
                Self::lemma_read_once_frame(*old(self), m0, m1, *self);
            }
            if lead {
                assert(s0.next_token() == s0.ahead(0));
            }
        }
        let token = self.look_ahead.copy();
        let mut prec = self.bin_precedence(&token);
        if prec == 0 {
            return Ok(current);
        }
        proof {
            lemma_precedence_has_operator(token, self.context.allow_in);
            if lead {
                let s1 = *self;
                assert(s0.can_read(2 + 1));
                s1.lemma_can_read_advance(1);
            }
        }
        let ghost s1 = *self;
        self.next_item()?;
        proof {
            if lead {
                Self::lemma_read_one(s1, *self);
                Self::lemma_reads_compose(s0, s1, *self, 1, 1);
                assert(s1.ahead(0) == s0.ahead(0 + 1));
            }
        }
        let ghost s2 = *self;
        self.context.is_assignment_target = false;
        self.context.is_binding_element = false;
        let (prev_bind, prev_assign, prev_first) = self.isolate_cover_grammar();
        self.set_isolate_cover_grammar_state(prev_bind, prev_assign, prev_first)?;
        let (prev_bind, prev_assign, prev_first) = self.isolate_cover_grammar();
        let ghost s3 = *self;
        proof {
            if lead {
                Self::lemma_reads_same(s2, s3);
                Self::lemma_reads_compose(s0, s2, s3, 2, 0);
                assert(s0.can_read(1 + 2));
                s3.lemma_can_read_advance(0);
                assert(s3.ahead(0) == s0.ahead(0 + 2));
                assert(s3.next_token() == s3.ahead(0));
                assert(s3.atom_ahead());
            }
        }
        let right = self.parse_exponentiation_expression()?;
        let ghost s4 = *self;
        self.set_isolate_cover_grammar_state(prev_bind, prev_assign, prev_first)?;
        proof {
            if lead {
                assert(self.look_ahead == s0.ahead(2));
                assert(self.context.allow_in == s0.context.allow_in);
                Self::lemma_reads_same(s4, *self);
                Self::lemma_reads_compose(s0, s3, s4, 2, 1);
                Self::lemma_reads_compose(s0, s4, *self, 3, 0);
            }
        }
        let mut stack: Vec<Expr> = vec![current, right];
        let mut ops: Vec<TokItem> = vec![token];
        let mut precs: Vec<usize> = vec![prec];
        let ghost x = simple_tree(s0.look_ahead);
        let ghost y = simple_tree(s0.ahead(1));
        let ghost z = simple_tree(s0.ahead(3));
        let ghost p1 = crate::parser::rules::token_precedence(s0.ahead(0), s0.context.allow_in);
        let ghost j1 = joined(s0.ahead(0), x, y);
        let ghost mut phase: nat = 0;
        proof {
            if lead {
                assert(prec == p1);
            }
        }
        loop
            invariant
                self.advanced(*old(self)),
                !old(self).atom_alone(),
                pair == old(self).binary_pair_ahead(),
                triple == old(self).binary_triple_ahead(),
                lead == old(self).binary_lead_ahead(),
                s0 == *old(self),
                x == simple_tree(s0.look_ahead),
                y == simple_tree(s0.ahead(1)),
                z == simple_tree(s0.ahead(3)),
                j1 == joined(s0.ahead(0), x, y),
                p1 == crate::parser::rules::token_precedence(s0.ahead(0), s0.context.allow_in),
                pair ==> stack@ == seq![x, y] && ops@ == seq![old(self).ahead(0)] && self.look_ahead
                    == old(self).ahead(2) && self.context.allow_in == old(self).context.allow_in,
                triple ==> (phase == 0 && stack@ == seq![x, y] && ops@ == seq![s0.ahead(0)] && precs@
                    == seq![p1 as usize] && self.look_ahead == s0.ahead(2) && Self::reads_from(s0, *self, 3)
                    && self.context.allow_in == s0.context.allow_in) || (phase == 1 && stack@ == seq![j1, z]
                    && ops@ == seq![s0.ahead(2)] && self.look_ahead == s0.ahead(4)
                    && self.context.allow_in == s0.context.allow_in),
                stack.len() == ops.len() + 1,
                ops.len() == precs.len(),
                forall|k: int|
                    0 <= k < ops.len() ==> (#[trigger] ops@[k]).spec_is_punct(
                        Punct::DoubleAmpersand,
                    ) || ops@[k].spec_is_punct(Punct::DoublePipe)
                        || crate::parser::rules::spec_binary_operator(ops@[k]) is Some,
            ensures
                self.advanced(*old(self)),
                !old(self).atom_alone(),
                pair == old(self).binary_pair_ahead(),
                triple == old(self).binary_triple_ahead(),
                s0 == *old(self),
                x == simple_tree(s0.look_ahead),
                y == simple_tree(s0.ahead(1)),
                z == simple_tree(s0.ahead(3)),
                j1 == joined(s0.ahead(0), x, y),
                pair ==> stack@ == seq![x, y] && ops@ == seq![old(self).ahead(0)],
                triple ==> stack@ == seq![j1, z] && ops@ == seq![s0.ahead(2)],
                stack.len() == ops.len() + 1,
                ops.len() == precs.len(),
                forall|k: int|
                    0 <= k < ops.len() ==> (#[trigger] ops@[k]).spec_is_punct(
                        Punct::DoubleAmpersand,
                    ) || ops@[k].spec_is_punct(Punct::DoublePipe)
                        || crate::parser::rules::spec_binary_operator(ops@[k]) is Some,
            decreases self.rank(),
        {
            prec = self.bin_precedence(&self.look_ahead);
            if prec == 0 {
                break;
            }
            proof {
                lemma_precedence_has_operator(self.look_ahead, self.context.allow_in);
            }
            let ghost s_in = *self;
            let ghost p2 = crate::parser::rules::token_precedence(s0.ahead(2), s0.context.allow_in);
            while stack.len() > 1 && ops.len() > 0 && prec <= precs[precs.len() - 1]
                invariant
                    !old(self).atom_alone(),
                    !old(self).binary_pair_ahead(),
                    triple == old(self).binary_triple_ahead(),
                    s0 == *old(self),
                    x == simple_tree(s0.look_ahead),
                    y == simple_tree(s0.ahead(1)),
                    j1 == joined(s0.ahead(0), x, y),
                    p1 == crate::parser::rules::token_precedence(s0.ahead(0), s0.context.allow_in),
                    p2 == crate::parser::rules::token_precedence(s0.ahead(2), s0.context.allow_in),
                    triple ==> phase == 0 && prec == p2 && *self == s_in && ((stack@ == seq![x, y]
                        && ops@ == seq![s0.ahead(0)] && precs@ == seq![p1 as usize]) || (stack@ == seq![j1]
                        && ops@.len() == 0 && precs@.len() == 0)),
                    stack.len() == ops.len() + 1,
                    ops.len() == precs.len(),
                    forall|k: int|
                        0 <= k < ops.len() ==> (#[trigger] ops@[k]).spec_is_punct(
                            Punct::DoubleAmpersand,
                        ) || ops@[k].spec_is_punct(Punct::DoublePipe)
                            || crate::parser::rules::spec_binary_operator(ops@[k]) is Some,
                decreases ops.len(),
            {
                let right = match stack.pop() {
                    Some(e) => e,
                    None => {
                        return Err(self.op_error("invalid binary operation, no right expr in stack"));
                    },
                };
                let op = match ops.pop() {
                    Some(o) => o,
                    None => {
                        return Err(self.op_error("invalid binary operation, too few operators"));
                    },
                };
                let _ = precs.pop();
                let left = match stack.pop() {
                    Some(e) => e,
                    None => {
                        return Err(self.op_error("invalid binary operation, no left expr in stack"));
                    },
                };
                let joined = self.join_binary(&op, left, right)?;
                stack.push(joined);
            }
            proof {
                if triple {
                    assert(s0.can_read(2 + 3));
                    s_in.lemma_can_read_advance(1);
                }
            }
            let op = self.next_item()?;
            let ghost s5 = *self;
            proof {
                if triple {
                    Self::lemma_read_one(s_in, s5);
                    Self::lemma_reads_compose(s0, s_in, s5, 3, 1);
                    assert(s_in.ahead(0) == s0.ahead(0 + 3));
                }
            }
            ops.push(op);
            precs.push(prec);
            let (prev_bind, prev_assign, prev_first) = self.isolate_cover_grammar();
            let ghost s6 = *self;
            proof {
                if triple {
                    Self::lemma_reads_same(s5, s6);
                    Self::lemma_reads_compose(s0, s5, s6, 4, 0);
                    assert(s0.can_read(1 + 4));
                    s6.lemma_can_read_advance(0);
                    assert(s6.ahead(0) == s0.ahead(0 + 4));
                    assert(s6.next_token() == s6.ahead(0));
                    assert(s6.atom_ahead());
                }
            }
            let exp = self.parse_exponentiation_expression()?;
            self.set_isolate_cover_grammar_state(prev_bind, prev_assign, prev_first)?;
            stack.push(exp);
            proof {
                phase = phase + 1;
            }
        }
        let mut current = match stack.pop() {
            Some(e) => e,
            None => {
                return Err(self.op_error("invalid binary operation, too few expressions"));
            },
        };
        while ops.len() > 0 && stack.len() > 0
            invariant
                self.advanced(*old(self)),
                !old(self).atom_alone(),
                pair == old(self).binary_pair_ahead(),
                pair ==> (ops@ == seq![old(self).ahead(0)] && stack@ == seq![x] && current == y) || (
                ops.len() == 0 && current == joined(old(self).ahead(0), x, y)),
                triple == old(self).binary_triple_ahead(),
                triple ==> (ops@ == seq![old(self).ahead(2)] && stack@ == seq![j1] && current == z) || (
                ops.len() == 0 && current == joined(old(self).ahead(2), j1, z)),
                j1 == joined(old(self).ahead(0), x, y),
                x == simple_tree(old(self).look_ahead),
                y == simple_tree(old(self).ahead(1)),
                z == simple_tree(old(self).ahead(3)),
                stack.len() == ops.len(),
                forall|k: int|
                    0 <= k < ops.len() ==> (#[trigger] ops@[k]).spec_is_punct(
                        Punct::DoubleAmpersand,
                    ) || ops@[k].spec_is_punct(Punct::DoublePipe)
                        || crate::parser::rules::spec_binary_operator(ops@[k]) is Some,
            decreases ops.len(),
        {
            let op = match ops.pop() {
                Some(o) => o,
                None => {
                    return Err(self.op_error("invalid binary operation, too few operators"));
                },
            };
            let left = match stack.pop() {
                Some(e) => e,
                None => {
                    return Err(self.op_error("invalid binary operation, too few expressions"));
                },
            };
            current = self.join_binary(&op, left, current)?;
        }
        Ok(current)
    }

    #[verifier::spinoff_prover]
    pub(crate) fn parse_exponentiation_expression(&mut self) -> (r: Res<Expr>)
        requires
            old(self).inv(),
        ensures
            final(self).moved(*old(self), r is Ok),
            old(self).atom_ahead() ==> r == Ok::<Expr, ParseError>(simple_tree(old(self).look_ahead))
                && Self::read_once(*old(self), *final(self)) && final(self).context.allow_in == old(
                self,
            ).context.allow_in,
        decreases old(self).rank(), 6nat,
    {
        let ghost s0 = *self;
        let (prev_bind, prev_assign, prev_first) = self.inherit_cover_grammar();
        let ghost m0 = *self;
        let expr = self.parse_unary_expression()?;
        let ghost m1 = *self;
        self.set_inherit_cover_grammar_state(prev_bind, prev_assign, prev_first);
        proof {
            if s0.atom_ahead() {
                Self::lemma_read_once_frame(s0, m0, m1, *self);
            }
        }
        if self.at_punct(Punct::DoubleAsterisk) {
            let _stars = self.next_item()?;
            self.context.is_assignment_target = false;
            self.context.is_binding_element = false;
            let (prev_bind, prev_assign, prev_first) = self.isolate_cover_grammar();
            let right = self.parse_exponentiation_expression()?;
            self.set_isolate_cover_grammar_state(prev_bind, prev_assign, prev_first)?;
            return Ok(
                Expr::Binary(
                    BinaryExpr {
                        operator: BinaryOperator::PowerOf,
                        left: Box::new(expr),
                        right: Box::new(right),
                    },
                ),
            );
        }
        Ok(expr)
    }

    /// A unary operator other than `delete` stands at the look-ahead, then
    /// a token that is a whole expression, then a token that ends the
    /// expression; the two reads over the operator and the operand succeed.
    pub(crate) open spec fn unary_simple_ahead(&self) -> bool {
        &&& spec_unary_operator(self.look_ahead) is Some
        &&& !self.look_ahead.spec_is_keyword(Keyword::Delete)
        &&& self.can_read(2)
        &&& simple_token(self.ahead(0))
        &&& closes(self.ahead(1))
        &&& self.ahead(1).text@ != "n"@
    }

    #[verifier::spinoff_prover]
    pub(crate) fn parse_unary_expression(&mut self) -> (r: Res<Expr>)
        requires
            old(self).inv(),
        ensures
            final(self).moved(*old(self), r is Ok),
            r matches Ok(e) ==> (spec_unary_operator(old(self).look_ahead) matches Some(op) ==> (e
                matches Expr::Unary(u) && u.operator == op && u.prefix)),
            old(self).atom_ahead() ==> r == Ok::<Expr, ParseError>(simple_tree(old(self).look_ahead))
                && Self::read_once(*old(self), *final(self)) && final(self).context.allow_in == old(
                self,
            ).context.allow_in,
            old(self).unary_simple_ahead() ==> r == Ok::<Expr, ParseError>(
                Expr::Unary(
                    UnaryExpr {
                        prefix: true,
                        operator: spec_unary_operator(old(self).look_ahead)->Some_0,
                        argument: Box::new(simple_tree(old(self).ahead(0))),
                    },
                ),
            ),
        decreases old(self).rank(), 5nat,
    {
        let ghost s0 = *self;
        proof {
            if s0.unary_simple_ahead() {
                s0.lemma_can_read_advance(1);
            }
        }
        if self.at_punct(Punct::Plus) || self.at_punct(Punct::Dash) || self.at_punct(Punct::Tilde)
            || self.at_punct(Punct::Bang) || self.at_keyword(Keyword::Delete) || self.at_keyword(
            Keyword::Void,
        ) || self.at_keyword(Keyword::TypeOf) {
            let op = self.next_item()?;
            proof {
                if s0.unary_simple_ahead() {
                    Self::lemma_read_step(s0, *self, 1);
                    self.lemma_can_read_advance(0);
                    assert(self.next_token() == self.ahead(0));
                }
            }
            let (prev_bind, prev_assign, prev_first) = self.inherit_cover_grammar();
            let arg = self.parse_unary_expression()?;
            self.set_inherit_cover_grammar_state(prev_bind, prev_assign, prev_first);
            if op.matches_keyword(Keyword::Delete) && self.context.strict && Self::is_ident(&arg) {
                if !self.config.tolerant {
                    return self.unexpected_token_error(&op, "Cannot delete ident in strict mode");
                }
            }
            self.context.is_assignment_target = false;
            self.context.is_binding_element = false;
            let operator = match Self::unary_operator(&op) {
                Some(o) => o,
                None => {
                    return Err(self.op_error("Unable to convert unary operator"));
                },
            };
            Ok(Expr::Unary(UnaryExpr { prefix: true, operator, argument: Box::new(arg) }))
        } else if self.context.allow_await && self.at_keyword(Keyword::Await) {
            self.parse_await_expr()
        } else {
            self.parse_update_expr()
        }
    }

    #[verifier::spinoff_prover]
    pub(crate) fn parse_await_expr(&mut self) -> (r: Res<Expr>)
        requires
            old(self).inv(),
        ensures
            final(self).moved(*old(self), r is Ok),
            r matches Ok(e) ==> e is Await,
        decreases old(self).rank(), 1nat,
    {
        let _await = self.next_item()?;
        let arg = self.parse_unary_expression()?;
        Ok(Expr::Await(Box::new(arg)))
    }

    #[verifier::spinoff_prover]
    pub(crate) fn parse_update_expr(&mut self) -> (r: Res<Expr>)
        requires
            old(self).inv(),
        ensures
            final(self).moved(*old(self), r is Ok),
            r matches Ok(e) ==> (old(self).look_ahead.spec_is_punct(Punct::DoublePlus) ==> (e
                matches Expr::Update(u) && u.operator == UpdateOperator::Increment && u.prefix)) && (old(
                self,
            ).look_ahead.spec_is_punct(Punct::DoubleDash) ==> (e matches Expr::Update(u) && u.operator
                == UpdateOperator::Decrement && u.prefix)),
            old(self).atom_ahead() ==> r == Ok::<Expr, ParseError>(simple_tree(old(self).look_ahead))
                && Self::read_once(*old(self), *final(self)) && final(self).context.allow_in == old(
                self,
            ).context.allow_in,
        decreases old(self).rank(), 4nat,
    {
        let start = self.look_ahead.copy();
        if self.at_punct(Punct::DoublePlus) || self.at_punct(Punct::DoubleDash) {
            let op = self.next_item()?;
            let operator = if op.matches_punct(Punct::DoublePlus) {
                UpdateOperator::Increment
            } else {
                UpdateOperator::Decrement
            };
            let start = self.look_ahead.copy();
            let (prev_bind, prev_assign, prev_first) = self.inherit_cover_grammar();
            let ex = self.parse_unary_expression()?;
            self.set_inherit_cover_grammar_state(prev_bind, prev_assign, prev_first);
            if self.context.strict {
                if let Expr::Ident(i) = &ex {
                    if Self::is_restricted_word(i.as_str()) {
                        if !self.config.tolerant {
                            return self.unexpected_token_error(&start, "restricted ident");
                        }
                    }
                }
            }
            if !self.context.is_assignment_target && !self.config.tolerant {
                return self.unexpected_token_error(
                    &op,
                    "Cannot increment when not at assignment target",
                );
            }
            self.context.is_assignment_target = false;
            self.context.is_binding_element = false;
            Ok(Expr::Update(UpdateExpr { operator, argument: Box::new(ex), prefix: true }))
        } else {
                let (prev_bind, prev_assign, prev_first) = self.inherit_cover_grammar();
            let ghost m0 = *self;
            let expr = self.parse_left_hand_side_expr_allow_call()?;
            let ghost m1 = *self;
            self.set_inherit_cover_grammar_state(prev_bind, prev_assign, prev_first);
            proof {
                if old(self).atom_ahead() {
                    Self::lemma_read_once_frame(*old(self), m0, m1, *self);
                }
            }
            if !self.has_line_term && self.look_ahead.is_punct() {
                if self.at_punct(Punct::DoublePlus) || self.at_punct(Punct::DoubleDash) {
                    if self.context.strict {
                        if let Expr::Ident(i) = &expr {
                            if Self::is_restricted_word(i.as_str()) {
                                return self.expected_token_error(&start, &[]);
                            }
                        }
                    }
                    let op = self.next_item()?;
                    if !self.context.is_assignment_target && !self.config.tolerant {
                        return self.unexpected_token_error(
                            &op,
                            "Cannot increment when not at assignment target",
                        );
                    }
                    self.context.is_assignment_target = false;
                    self.context.is_binding_element = false;
                    let operator = if op.matches_punct(Punct::DoublePlus) {
                        UpdateOperator::Increment
                    } else if op.matches_punct(Punct::DoubleDash) {
                        UpdateOperator::Decrement
                    } else {
                        return self.expected_token_error(&op, &["++", "--"]);
                    };
                    return Ok(
                        Expr::Update(UpdateExpr { operator, argument: Box::new(expr), prefix: false }),
                    );
                }
            }
            Ok(expr)
        }
    }

    #[verifier::spinoff_prover]
    pub(crate) fn parse_left_hand_side_expr(&mut self) -> (r: Res<Expr>)
        requires
            old(self).inv(),
        ensures
            final(self).moved(*old(self), r is Ok),
        decreases old(self).rank(), 3nat,
    {
        let mut expr = if self.at_keyword(Keyword::Super) && self.context.in_function_body {
            self.parse_super()?
        } else {
            let (prev_bind, prev_assign, prev_first) = self.inherit_cover_grammar();
            let ret = if self.at_keyword(Keyword::New) {
                self.parse_new_expr()?
            } else {
                self.parse_primary_expression()?
            };
            self.set_inherit_cover_grammar_state(prev_bind, prev_assign, prev_first);
            ret
        };
        loop
            invariant
                self.advanced(*old(self)),
            decreases self.rank(),
        {
            if self.at_punct(Punct::OpenBracket) {
                self.context.is_binding_element = false;
                self.context.is_assignment_target = true;
                self.expect_punct(Punct::OpenBracket)?;
                let (prev_bind, prev_assign, prev_first) = self.isolate_cover_grammar();
                let prop = self.parse_expression()?;
                self.set_isolate_cover_grammar_state(prev_bind, prev_assign, prev_first)?;
                self.expect_punct(Punct::CloseBracket)?;
                expr = Expr::Member(
                    MemberExpr { computed: true, object: Box::new(expr), property: Box::new(prop) },
                );
            } else if self.at_punct(Punct::Period) {
                self.context.is_binding_element = false;
                self.context.is_assignment_target = false;
                self.expect_punct(Punct::Period)?;
                let prop = self.parse_ident_name()?;
                expr = Expr::Member(
                    MemberExpr {
                        object: Box::new(expr),
                        property: Box::new(Expr::Ident(prop)),
                        computed: false,
                    },
                );
            } else if self.look_ahead.is_template() {
                let quasi = self.parse_template_literal()?;
                expr = Expr::TaggedTemplate(TaggedTemplateExpr { tag: Box::new(expr), quasi });
            } else {
                break;
            }
        }
        Ok(expr)
    }

    #[verifier::spinoff_prover]
    pub(crate) fn parse_super(&mut self) -> (r: Res<Expr>)
        requires
            old(self).inv(),
        ensures
            final(self).moved(*old(self), r is Ok),
            r is Ok ==> old(self).look_ahead.spec_is_keyword(Keyword::Super),
            r matches Ok(e) ==> e is Super,
            r is Ok <==> old(self).look_ahead.spec_is_keyword(Keyword::Super) && old(self).can_advance()
                && (old(self).next_token().spec_is_punct(Punct::OpenBracket) || old(
                self,
            ).next_token().spec_is_punct(Punct::Period)),
    {
        proof {
            if old(self).look_ahead.spec_is_keyword(Keyword::Super) && old(self).can_advance() {
                old(self).lemma_advance_reads();
            }
            reveal(Parser::reads_next);
        }
        self.expect_keyword(Keyword::Super)?;
        if !self.at_punct(Punct::OpenBracket) && !self.at_punct(Punct::Period) {
            return self.expected_token_error(&self.look_ahead, &["[", "."]);
        }
        Ok(Expr::Super)
    }

    #[verifier::spinoff_prover]
    pub(crate) fn parse_left_hand_side_expr_allow_call(&mut self) -> (r: Res<Expr>)
        requires
            old(self).inv(),
        ensures
            final(self).moved(*old(self), r is Ok),
            old(self).atom_ahead() ==> r == Ok::<Expr, ParseError>(simple_tree(old(self).look_ahead))
                && Self::read_once(*old(self), *final(self)) && final(self).context.allow_in == old(
                self,
            ).context.allow_in,
        decreases old(self).rank(), 3nat,
    {
        let start_pos = self.look_ahead_position;
        let is_async = self.at_contextual_keyword("async");
        let prev_in = self.context.allow_in;
        self.set_flag(Flag::AllowIn, true);
        let mut expr = if self.at_keyword(Keyword::Super) && self.context.in_function_body {
            let _ = self.next_item()?;
            if !self.at_punct(Punct::OpenParen) && !self.at_punct(Punct::Period) && !self.at_punct(
                Punct::OpenBracket,
            ) {
                return self.expected_token_error(&self.look_ahead, &["(", ".", "["]);
            }
            Expr::Super
        } else {
                let (prev_bind, prev_assign, prev_first) = self.inherit_cover_grammar();
            let ghost m0 = *self;
            let ret = if self.at_keyword(Keyword::New) {
                self.parse_new_expr()?
            } else {
                self.parse_primary_expression()?
            };
            let ghost m1 = *self;
            self.set_inherit_cover_grammar_state(prev_bind, prev_assign, prev_first);
            proof {
                if old(self).atom_ahead() {
                    Self::lemma_read_once_frame(*old(self), m0, m1, *self);
                }
            }
            ret
        };
        loop
            invariant
                prev_in == old(self).context.allow_in,
                self.advanced(*old(self)),
                old(self).atom_ahead() ==> expr == simple_tree(old(self).look_ahead)
                    && Self::read_once(*old(self), *self),
            ensures
                prev_in == old(self).context.allow_in,
                self.advanced(*old(self)),
                old(self).atom_ahead() ==> expr == simple_tree(old(self).look_ahead)
                    && Self::read_once(*old(self), *self),
            decreases self.rank(),
        {
            if self.at_punct(Punct::Period) {
                self.context.is_binding_element = false;
                self.context.is_assignment_target = true;
                self.expect_punct(Punct::Period)?;
                let prop = Expr::Ident(self.parse_ident_name()?);
                expr = Expr::Member(
                    MemberExpr { object: Box::new(expr), property: Box::new(prop), computed: false },
                );
            } else if self.at_punct(Punct::OpenParen) {
                let current_pos = self.look_ahead_position;
                let async_arrow = is_async && start_pos.line == current_pos.line;
                self.context.is_binding_element = false;
                self.context.is_assignment_target = false;
                let args = if async_arrow {
                    self.parse_async_args()?
                } else {
                    self.parse_args()?
                };
                if async_arrow && self.at_punct(Punct::EqualGreaterThan) {
                    let mut params: Vec<FunctionArg> = Vec::new();
                    let mut rest = crate::parser::reversed(args);
                    while rest.len() > 0
                        invariant
                            true,
                        decreases rest.len(),
                    {
                        match rest.pop() {
                            Some(a) => params.push(FunctionArg::Expr(a)),
                            None => {},
                        }
                    }
                    expr = Expr::ArrowParamPlaceHolder(params, true);
                } else {
                    expr = Expr::Call(CallExpr { callee: Box::new(expr), arguments: args });
                }
            } else if self.at_punct(Punct::OpenBracket) {
                self.context.is_assignment_target = true;
                self.context.is_binding_element = false;
                self.expect_punct(Punct::OpenBracket)?;
                let (prev_bind, prev_assign, prev_first) = self.isolate_cover_grammar();
                let prop = self.parse_expression()?;
                self.set_isolate_cover_grammar_state(prev_bind, prev_assign, prev_first)?;
                self.expect_punct(Punct::CloseBracket)?;
                expr = Expr::Member(
                    MemberExpr { object: Box::new(expr), computed: true, property: Box::new(prop) },
                );
            } else if self.look_ahead.is_template_head() {
                let quasi = self.parse_template_literal()?;
                expr = Expr::TaggedTemplate(TaggedTemplateExpr { tag: Box::new(expr), quasi });
            } else {
                break;
            }
        }
        let ghost m2 = *self;
        self.set_flag(Flag::AllowIn, prev_in);
        assert(self.context.allow_in == prev_in) by {
            reveal(crate::parser::with_flag);
        }
        proof {
            if old(self).atom_ahead() {
                Self::lemma_read_once_frame(*old(self), *old(self), m2, *self);
            }
        }
        Ok(expr)
    }

    /// Parse the arguments of an async function
    #[verifier::spinoff_prover]
    pub(crate) fn parse_async_args(&mut self) -> (r: Res<Vec<Expr>>)
        requires
            old(self).inv(),
        ensures
            final(self).moved(*old(self), r is Ok),
        decreases old(self).rank(), 1nat,
    {
        self.expect_punct(Punct::OpenParen)?;
        let mut ret: Vec<Expr> = Vec::new();
        if !self.at_punct(Punct::CloseParen) {
            loop
                invariant
                    self.advanced(*old(self)),
                decreases self.rank(),
            {
                let arg = if self.at_punct(Punct::Ellipsis) {
                    self.parse_spread_element()?
                } else {
                    let (prev_bind, prev_assign, prev_first) = self.isolate_cover_grammar();
                    let arg = self.parse_async_arg()?;
                    self.set_isolate_cover_grammar_state(prev_bind, prev_assign, prev_first)?;
                    arg
                };
                ret.push(arg);
                if self.at_punct(Punct::CloseParen) {
                    break;
                }
                self.expect_comma_sep()?;
                if self.at_punct(Punct::CloseParen) {
                    break;
                }
            }
        }
        self.expect_punct(Punct::CloseParen)?;
        Ok(ret)
    }

    /// Parse an argument of an async function
    #[verifier::spinoff_prover]
    pub(crate) fn parse_async_arg(&mut self) -> (r: Res<Expr>)
        requires
            old(self).inv(),
        ensures
            final(self).moved(*old(self), r is Ok),
        decreases old(self).rank(), 10nat,
    {
        let expr = self.parse_assignment_expr()?;
        self.context.first_covert_initialized_name_error = None;
        Ok(expr)
    }

    /// Expect a comma separator; a tolerant parser lets a missing one pass.
    pub(crate) fn expect_comma_sep(&mut self) -> (r: Res<()>)
        requires
            old(self).inv(),
        ensures
            final(self).stepped(*old(self)),
            final(self).context == old(self).context,
            !old(self).config.tolerant ==> (r is Ok ==> final(self).advanced(*old(self))
                && old(self).look_ahead.spec_is_punct(Punct::Comma)),
            !old(self).config.tolerant && !old(self).look_ahead.spec_is_punct(Punct::Comma) ==> r is Err,
            old(self).config.tolerant && !old(self).look_ahead.spec_is_punct(Punct::Comma) ==> r is Ok
                && *final(self) == *old(self),
    {
        if self.config.tolerant {
            if self.at_punct(Punct::Comma) {
                let _ = self.next_item()?;
                Ok(())
            } else {
                Ok(())
            }
        } else {
            self.expect_punct(Punct::Comma)
        }
    }

    /// Parse an expression preceded by the `...` operator
    #[verifier::spinoff_prover]
    pub(crate) fn parse_spread_element(&mut self) -> (r: Res<Expr>)
        requires
            old(self).inv(),
        ensures
            final(self).moved(*old(self), r is Ok),
            r matches Ok(e) ==> e is Spread,
        decreases old(self).rank(), 1nat,
    {
        self.expect_punct(Punct::Ellipsis)?;
        let (prev_bind, prev_assign, prev_first) = self.inherit_cover_grammar();
        let arg = self.parse_assignment_expr()?;
        self.set_inherit_cover_grammar_state(prev_bind, prev_assign, prev_first);
        Ok(Expr::Spread(Box::new(arg)))
    }

    /// Parse function arguments, expecting to open with `(` and close with `)`
    #[verifier::spinoff_prover]
    pub(crate) fn parse_args(&mut self) -> (r: Res<Vec<Expr>>)
        requires
            old(self).inv(),
        ensures
            final(self).moved(*old(self), r is Ok),
        decreases old(self).rank(), 1nat,
    {
        self.expect_punct(Punct::OpenParen)?;
        let mut args: Vec<Expr> = Vec::new();
        if !self.at_punct(Punct::CloseParen) {
            loop
                invariant
                    self.advanced(*old(self)),
                decreases self.rank(),
            {
                let expr = if self.at_punct(Punct::Ellipsis) {
                    self.parse_spread_element()?
                } else {
                    let (prev_bind, prev_assign, prev_first) = self.isolate_cover_grammar();
                    let expr = self.parse_assignment_expr()?;
                    self.set_isolate_cover_grammar_state(prev_bind, prev_assign, prev_first)?;
                    expr
                };
                args.push(expr);
                if self.at_punct(Punct::CloseParen) {
                    break;
                }
                self.expect_comma_sep()?;
                if self.at_punct(Punct::CloseParen) {
                    break;
                }
            }
        }
        self.expect_punct(Punct::CloseParen)?;
        Ok(args)
    }

    /// `.target` after `new`, inside a function body.
    fn parse_new_target(&mut self) -> (r: Res<Expr>)
        requires
            old(self).inv(),
        ensures
            final(self).moved(*old(self), r is Ok),
            r matches Ok(e) ==> e is MetaProperty,
    {
        let _ = self.next_item()?;
        if self.at_contextual_keyword("target") && self.context.in_function_body {
            let property = self.parse_ident_name()?;
            Ok(Expr::MetaProperty(MetaProperty { meta: String::from_str("new"), property }))
        } else {
            self.expected_token_error(&self.look_ahead, &["[constructor function call]"])
        }
    }

    /// This will parse one of two expressions `new Thing()`
    /// or `new.target`. The later is only valid in a function
    /// body
    #[verifier::spinoff_prover]
    pub(crate) fn parse_new_expr(&mut self) -> (r: Res<Expr>)
        requires
            old(self).inv(),
        ensures
            final(self).moved(*old(self), r is Ok),
            r is Ok ==> old(self).look_ahead.spec_is_keyword(Keyword::New),
            r matches Ok(e) ==> e is New || e is MetaProperty,
        decreases old(self).rank(), 1nat,
    {
        self.expect_keyword(Keyword::New)?;
        if self.at_punct(Punct::Period) {
            self.parse_new_target()
        } else if self.at_keyword(Keyword::Import) {
            self.expected_token_error(&self.look_ahead, &["not import"])
        } else {
            let (prev_bind, prev_assign, prev_first) = self.isolate_cover_grammar();
            let callee = self.parse_left_hand_side_expr()?;
            self.set_isolate_cover_grammar_state(prev_bind, prev_assign, prev_first)?;
            let args = if self.at_punct(Punct::OpenParen) {
                self.parse_args()?
            } else {
                Vec::new()
            };
            self.context.is_assignment_target = false;
            self.context.is_binding_element = false;
            Ok(Expr::New(NewExpr { callee: Box::new(callee), arguments: args }))
        }
    }
}

} // verus!

//! Statements.
use vstd::prelude::*;
use vstd::string::StringExecFns;
use crate::ast::{
    Pat,
    BlockStmt, CatchClause, Class, Decl, DoWhileStmt, Expr, ForInStmt, ForOfStmt, ForStmt, IfStmt,
    LabeledStmt, LoopInit, LoopLeft, ProgramPart, Stmt, SwitchCase, SwitchStmt, TryStmt,
    VariableDecl, VariableKind, WhileStmt, WithStmt,
};
use crate::error::ParseError;
use crate::parser::{ends_statement, simple_tree, CommentHandler, Flag, Parser, Res};
use crate::tokens::{Keyword, Punct, TokKind};

verus! {

impl<'a, CH: CommentHandler> Parser<'a, CH> {
    /// This is where we will begin our recursive decent. First
    /// we check to see if we are at at token that is a known
    /// statement or declaration (import/export/function/const/let/class)
    /// otherwise we move on to `Parser::parse_statement`
    #[verifier::spinoff_prover]
    pub(crate) fn parse_statement_list_item(&mut self) -> (r: Res<ProgramPart>)
        requires
            old(self).inv(),
        ensures
            final(self).moved(*old(self), r is Ok),
            r matches Ok(p) ==> !(p is Dir),
            r matches Ok(p) ==> (old(self).look_ahead.spec_is_keyword(Keyword::Export) ==> p is Decl)
                && (old(self).look_ahead.spec_is_keyword(Keyword::Const) ==> p is Decl) && (old(
                self,
            ).look_ahead.spec_is_keyword(Keyword::Function) ==> p is Decl) && (old(
                self,
            ).look_ahead.spec_is_keyword(Keyword::Class) ==> p is Decl),
            old(self).simple_ahead() && ends_statement(old(self).next_token()) ==> r == Ok::<ProgramPart, ParseError>(
                ProgramPart::Stmt(Stmt::Expr(simple_tree(old(self).look_ahead))),
            ) && Self::read_once(*old(self), *final(self)),
            old(self).semi_simple_ahead() ==> r == Ok::<ProgramPart, ParseError>(
                ProgramPart::Stmt(Stmt::Expr(simple_tree(old(self).look_ahead))),
            ),
        decreases old(self).rank(), 13nat,
    {
        self.context.is_assignment_target = true;
        self.context.is_binding_element = true;
        match self.look_ahead.kind {
            TokKind::Keyword(Keyword::Import) => {
                if self.at_import_call() {
                    let stmt = self.parse_statement()?;
                    Ok(ProgramPart::Stmt(stmt))
                } else {
                    let import = self.parse_import_decl()?;
                    Ok(ProgramPart::Decl(Decl::Import(Box::new(import))))
                }
            },
            TokKind::Keyword(Keyword::Export) => {
                let export = self.parse_export_decl()?;
                Ok(ProgramPart::Decl(Decl::Export(Box::new(export))))
            },
            TokKind::Keyword(Keyword::Const) => {
                let decl = self.parse_lexical_decl(false)?;
                Ok(ProgramPart::Decl(decl))
            },
            TokKind::Keyword(Keyword::Function) => {
                let func = self.parse_function_decl(true)?;
                Ok(ProgramPart::Decl(Decl::Function(func)))
            },
            TokKind::Keyword(Keyword::Class) => {
                let class = self.parse_class_decl(false)?;
                Ok(ProgramPart::Decl(Decl::Class(class)))
            },
            TokKind::Keyword(Keyword::Let) => {
                if self.at_lexical_decl() {
                    let decl = self.parse_lexical_decl(false)?;
                    Ok(ProgramPart::Decl(decl))
                } else {
                    let stmt = self.parse_statement()?;
                    Ok(ProgramPart::Stmt(stmt))
                }
            },
            _ => {
                let stmt = self.parse_statement()?;
                Ok(ProgramPart::Stmt(stmt))
            },
        }
    }

    /// A statement, chosen by its first token.
    #[verifier::spinoff_prover]
    pub(crate) fn parse_statement(&mut self) -> (r: Res<Stmt>)
        requires
            old(self).inv(),
        ensures
            final(self).moved(*old(self), r is Ok),
            r matches Ok(s) ==> (old(self).look_ahead.spec_is_punct(Punct::OpenBrace) ==> s is Block)
                && (old(self).look_ahead.spec_is_punct(Punct::SemiColon) ==> s is Empty) && (old(
                self,
            ).look_ahead.spec_is_keyword(Keyword::If) ==> s is If) && (old(
                self,
            ).look_ahead.spec_is_keyword(Keyword::While) ==> s is While) && (old(
                self,
            ).look_ahead.spec_is_keyword(Keyword::Do) ==> s is DoWhile) && (old(
                self,
            ).look_ahead.spec_is_keyword(Keyword::Return) ==> s is Return) && (old(
                self,
            ).look_ahead.spec_is_keyword(Keyword::Throw) ==> s is Throw) && (old(
                self,
            ).look_ahead.spec_is_keyword(Keyword::Try) ==> s is Try) && (old(
                self,
            ).look_ahead.spec_is_keyword(Keyword::Switch) ==> s is Switch) && (old(
                self,
            ).look_ahead.spec_is_keyword(Keyword::Var) ==> s is Var) && (old(
                self,
            ).look_ahead.spec_is_keyword(Keyword::Debugger) ==> s is Debugger) && (old(
                self,
            ).look_ahead.spec_is_keyword(Keyword::Break) ==> s is Break) && (old(
                self,
            ).look_ahead.spec_is_keyword(Keyword::Continue) ==> s is Continue),
            old(self).look_ahead.kind is EoF || old(self).look_ahead.kind is Comment ==> r is Err,
            old(self).simple_ahead() && ends_statement(old(self).next_token()) ==> r == Ok::<Stmt, ParseError>(
                Stmt::Expr(simple_tree(old(self).look_ahead)),
            ) && Self::read_once(*old(self), *final(self)),
            old(self).semi_simple_ahead() ==> r == Ok::<Stmt, ParseError>(
                Stmt::Expr(simple_tree(old(self).look_ahead)),
            ),
            old(self).look_ahead.spec_is_punct(Punct::SemiColon) && old(self).can_read(1) ==> r
                == Ok::<Stmt, ParseError>(Stmt::Empty) && Self::reads_from(*old(self), *final(self), 1),
        decreases old(self).rank(), 12nat,
    {
        let ghost s0 = *self;
        proof {
            if s0.look_ahead.spec_is_punct(Punct::SemiColon) && s0.can_read(1) {
                s0.lemma_can_read_advance(0);
            }
        }
        match self.look_ahead.kind {
            TokKind::Boolean(_) | TokKind::Null | TokKind::Number | TokKind::Str | TokKind::RegEx {
                ..
            } | TokKind::Template(..) => {
                let expr = self.parse_expression_statement()?;
                Ok(Stmt::Expr(expr))
            },
            TokKind::Punct(Punct::OpenBrace) => {
                let b = self.parse_block()?;
                Ok(Stmt::Block(b))
            },
            TokKind::Punct(Punct::SemiColon) => {
                let _ = self.next_item()?;
                proof {
                    if s0.can_read(1) {
                        Self::lemma_read_one(s0, *self);
                    }
                }
                Ok(Stmt::Empty)
            },
            TokKind::Punct(_) => {
                let expr = self.parse_expression_statement()?;
                Ok(Stmt::Expr(expr))
            },
            TokKind::Ident => {
                if self.at_async_function() {
                    let f = self.parse_function_decl(true)?;
                    Ok(Stmt::Expr(Expr::Function(f)))
                } else {
                    self.parse_labelled_statement()
                }
            },
            TokKind::Keyword(k) => match k {
                Keyword::Break => Ok(Stmt::Break(self.parse_break_stmt()?)),
                Keyword::Continue => Ok(Stmt::Continue(self.parse_continue_stmt()?)),
                Keyword::Debugger => self.parse_debugger_stmt(),
                Keyword::Do => Ok(Stmt::DoWhile(self.parse_do_while_stmt()?)),
                Keyword::For => self.parse_for_stmt(),
                Keyword::Function => Ok(Stmt::Expr(self.parse_fn_stmt()?)),
                Keyword::If => Ok(Stmt::If(self.parse_if_stmt()?)),
                Keyword::Return => Ok(Stmt::Return(self.parse_return_stmt()?)),
                Keyword::Switch => Ok(Stmt::Switch(self.parse_switch_stmt()?)),
                Keyword::Throw => Ok(Stmt::Throw(self.parse_throw_stmt()?)),
                Keyword::Try => Ok(Stmt::Try(self.parse_try_stmt()?)),
                Keyword::Var => self.parse_var_stmt(),
                Keyword::While => Ok(Stmt::While(self.parse_while_stmt()?)),
                Keyword::With => Ok(Stmt::With(self.parse_with_stmt()?)),
                _ => Ok(Stmt::Expr(self.parse_expression_statement()?)),
            },
            _ => self.expected_token_error(&self.look_ahead, &[]),
        }
    }

    #[verifier::spinoff_prover]
    pub(crate) fn parse_with_stmt(&mut self) -> (r: Res<WithStmt>)
        requires
            old(self).inv(),
        ensures
            final(self).moved(*old(self), r is Ok),
            old(self).context.strict && !old(self).config.tolerant ==> r matches Err(
                ParseError::NonStrictFeatureInStrictContext(_, _),
            ),
        decreases old(self).rank(), 1nat,
    {
        if self.context.strict {
            self.tolerate_error(
                ParseError::NonStrictFeatureInStrictContext(
                    self.current_position,
                    String::from_str("with statements"),
                ),
            )?;
        }
        self.expect_keyword(Keyword::With)?;
        self.expect_punct(Punct::OpenParen)?;
        let obj = self.parse_expression()?;
        if !self.at_punct(Punct::CloseParen) {
            if !self.config.tolerant {
                self.expected_token_error(&self.look_ahead, &[")"])?;
            }
            Ok(WithStmt { object: obj, body: Box::new(Stmt::Empty) })
        } else {
            self.expect_punct(Punct::CloseParen)?;
            let body = self.parse_statement()?;
            Ok(WithStmt { object: obj, body: Box::new(body) })
        }
    }

    #[verifier::spinoff_prover]
    pub(crate) fn parse_while_stmt(&mut self) -> (r: Res<WhileStmt>)
        requires
            old(self).inv(),
        ensures
            final(self).moved(*old(self), r is Ok),
        decreases old(self).rank(), 1nat,
    {
        self.expect_keyword(Keyword::While)?;
        self.expect_punct(Punct::OpenParen)?;
        let test = self.parse_expression()?;
        let body = if !self.at_punct(Punct::CloseParen) {
            if !self.config.tolerant {
                return self.expected_token_error(&self.look_ahead, &[")"]);
            }
            Stmt::Empty
        } else {
            self.expect_punct(Punct::CloseParen)?;
            let prev_iter = self.context.in_iteration;
            let body = self.parse_statement()?;
            self.set_flag(Flag::InIteration, prev_iter);
            body
        };
        Ok(WhileStmt { test, body: Box::new(body) })
    }

    #[verifier::spinoff_prover]
    pub(crate) fn parse_var_stmt(&mut self) -> (r: Res<Stmt>)
        requires
            old(self).inv(),
        ensures
            final(self).moved(*old(self), r is Ok),
            r matches Ok(s) ==> s is Var,
            r is Ok ==> old(self).look_ahead.spec_is_keyword(Keyword::Var),
            old(self).look_ahead.spec_is_keyword(Keyword::Var) && old(self).can_read(2) && !old(
                self,
            ).ahead(0).spec_is_punct(Punct::OpenBracket) && !old(self).ahead(0).spec_is_punct(
                Punct::OpenBrace,
            ) && crate::parser::primary::ident_ok(
                old(self).context,
                old(self).config.is_module,
                old(self).ahead(0),
                true,
            ) && (old(self).ahead(1).spec_is_punct(Punct::CloseBrace) || old(self).ahead(1).kind is EoF)
                ==> (r matches Ok(Stmt::Var(v)) && v.len() == 1),
        decreases old(self).rank(), 1nat,
    {
        let ghost s0 = *self;
        let ghost shape = s0.look_ahead.spec_is_keyword(Keyword::Var) && s0.can_read(2) && !s0.ahead(
            0,
        ).spec_is_punct(Punct::OpenBracket) && !s0.ahead(0).spec_is_punct(Punct::OpenBrace)
            && crate::parser::primary::ident_ok(s0.context, s0.config.is_module, s0.ahead(0), true)
            && (s0.ahead(1).spec_is_punct(Punct::CloseBrace) || s0.ahead(1).kind is EoF);
        proof {
            if shape {
                s0.lemma_can_read_advance(1);
            }
        }
        self.expect_keyword(Keyword::Var)?;
        proof {
            if shape {
                Self::lemma_read_step(s0, *self, 1);
                self.lemma_can_read_advance(0);
                assert(self.next_token() == self.ahead(0));
            }
        }
        let decls = self.parse_var_decl_list(false)?;
        self.consume_semicolon()?;
        Ok(Stmt::Var(decls))
    }

    #[verifier::spinoff_prover]
    pub(crate) fn parse_var_decl_list(&mut self, in_for: bool) -> (r: Res<Vec<VariableDecl>>)
        requires
            old(self).inv(),
        ensures
            final(self).moved(*old(self), r is Ok),
            r matches Ok(v) ==> v.len() >= 1,
            old(self).plain_name_ahead(Some(VariableKind::Var)) && !old(self).next_token().spec_is_punct(
                Punct::Comma,
            ) ==> (r matches Ok(v) && v.len() == 1 && final(self).look_ahead == old(self).next_token()),
        decreases old(self).rank(), 4nat,
    {
        let ghost single = old(self).plain_name_ahead(Some(VariableKind::Var)) && !old(self).next_token().spec_is_punct(Punct::Comma);
        let mut ret: Vec<VariableDecl> = vec![self.parse_var_decl(in_for)?];
        while self.at_punct(Punct::Comma)
            invariant
                self.advanced(*old(self)),
                ret.len() >= 1,
                single ==> ret.len() == 1 && !self.look_ahead.spec_is_punct(Punct::Comma)
                    && self.look_ahead == old(self).next_token(),
                single == (old(self).plain_name_ahead(Some(VariableKind::Var)) && !old(self).next_token().spec_is_punct(Punct::Comma)),
            decreases self.rank(),
        {
            let _ = self.next_item()?;
            ret.push(self.parse_var_decl(in_for)?);
        }
        Ok(ret)
    }

    #[verifier::spinoff_prover]
    pub(crate) fn parse_var_decl(&mut self, in_for: bool) -> (r: Res<VariableDecl>)
        requires
            old(self).inv(),
        ensures
            final(self).moved(*old(self), r is Ok),
            old(self).plain_name_ahead(Some(VariableKind::Var)) ==> (r matches Ok(d) && d.id
                == Pat::Identifier(old(self).look_ahead.text) && d.init is None && final(self).look_ahead == old(self).next_token()),
        decreases old(self).rank(), 3nat,
    {
        proof {
            if old(self).plain_name_ahead(Some(VariableKind::Var)) {
                old(self).lemma_name_reads(Some(VariableKind::Var));
            }
            reveal(Parser::reads_next);
        }
        let (_, patt) = self.parse_pattern(Some(VariableKind::Var))?;
        let init = if self.at_punct(Punct::Equal) {
            let _ = self.next_item()?;
            let (prev_bind, prev_assign, prev_first) = self.isolate_cover_grammar();
            let init = self.parse_assignment_expr()?;
            self.set_isolate_cover_grammar_state(prev_bind, prev_assign, prev_first)?;
            Some(init)
        } else if !Self::is_pat_ident(&patt) && !in_for {
            return self.expected_token_error(&self.look_ahead, &["="]);
        } else {
            None
        };
        Ok(VariableDecl { id: patt, init })
    }

    #[verifier::spinoff_prover]
    pub(crate) fn parse_try_stmt(&mut self) -> (r: Res<TryStmt>)
        requires
            old(self).inv(),
        ensures
            final(self).moved(*old(self), r is Ok),
            r is Ok ==> old(self).look_ahead.spec_is_keyword(Keyword::Try),
            old(self).look_ahead.spec_is_keyword(Keyword::Try) && old(self).can_read(6) && old(
                self,
            ).ahead(0).spec_is_punct(Punct::OpenBrace) && old(self).ahead(1).spec_is_punct(
                Punct::CloseBrace,
            ) && old(self).ahead(2).spec_is_keyword(Keyword::Finally) && old(self).ahead(
                3,
            ).spec_is_punct(Punct::OpenBrace) && old(self).ahead(4).spec_is_punct(Punct::CloseBrace)
                ==> (r matches Ok(s) && s.block.len() == 0 && s.handler is None && (s.finalizer matches Some(
                f) && f.len() == 0)),
        decreases old(self).rank(), 1nat,
    {
        let ghost s0 = *self;
        let ghost shape = s0.look_ahead.spec_is_keyword(Keyword::Try) && s0.can_read(6) && s0.ahead(
            0,
        ).spec_is_punct(Punct::OpenBrace) && s0.ahead(1).spec_is_punct(Punct::CloseBrace) && s0.ahead(
            2,
        ).spec_is_keyword(Keyword::Finally) && s0.ahead(3).spec_is_punct(Punct::OpenBrace) && s0.ahead(
            4,
        ).spec_is_punct(Punct::CloseBrace);
        proof {
            if shape {
                s0.lemma_can_read_advance(5);
            }
        }
        self.expect_keyword(Keyword::Try)?;
        let ghost s1 = *self;
        proof {
            if shape {
                Self::lemma_read_step(s0, s1, 5);
                assert(s1.ahead(0) == s0.ahead(1));
            }
        }
        let block = self.parse_block()?;
        proof {
            if shape {
                assert(s1.can_read(3 + 2));
                assert(self.can_read(3));
                assert(self.ahead(0) == s1.ahead(2));
                assert(s1.ahead(2) == s0.ahead(3));
                assert(self.ahead(1) == s1.ahead(3));
                assert(s1.ahead(3) == s0.ahead(4));
                assert(s1.ahead(1) == s0.ahead(2));
            }
        }
        let handler = if self.at_keyword(Keyword::Catch) {
            Some(self.parse_catch_clause()?)
        } else {
            None
        };
        let finalizer = if self.at_keyword(Keyword::Finally) {
            Some(self.parse_finally_clause()?)
        } else {
            None
        };
        Ok(TryStmt { block, handler, finalizer })
    }

    #[verifier::spinoff_prover]
    pub(crate) fn parse_catch_clause(&mut self) -> (r: Res<CatchClause>)
        requires
            old(self).inv(),
        ensures
            final(self).moved(*old(self), r is Ok),
        decreases old(self).rank(), 1nat,
    {
        self.expect_keyword(Keyword::Catch)?;
        let param = if self.at_punct(Punct::OpenParen) {
            self.expect_punct(Punct::OpenParen)?;
            let (_, param) = self.parse_pattern(None)?;
            self.expect_punct(Punct::CloseParen)?;
            Some(param)
        } else {
            None
        };
        let body = self.parse_block()?;
        Ok(CatchClause { param, body })
    }

    #[verifier::spinoff_prover]
    pub(crate) fn parse_finally_clause(&mut self) -> (r: Res<BlockStmt>)
        requires
            old(self).inv(),
        ensures
            final(self).moved(*old(self), r is Ok),
            r is Ok ==> old(self).look_ahead.spec_is_keyword(Keyword::Finally),
            old(self).look_ahead.spec_is_keyword(Keyword::Finally) && old(self).can_read(3) && old(
                self,
            ).ahead(0).spec_is_punct(Punct::OpenBrace) && old(self).ahead(1).spec_is_punct(
                Punct::CloseBrace,
            ) ==> (r matches Ok(v) && v.len() == 0 && final(self).look_ahead == old(self).ahead(2)),
        decreases old(self).rank(), 1nat,
    {
        let ghost s0 = *self;
        proof {
            if s0.can_read(3) {
                s0.lemma_can_read_advance(2);
            }
        }
        self.expect_keyword(Keyword::Finally)?;
        proof {
            if s0.look_ahead.spec_is_keyword(Keyword::Finally) && s0.can_read(3) && s0.ahead(
                0,
            ).spec_is_punct(Punct::OpenBrace) && s0.ahead(1).spec_is_punct(Punct::CloseBrace) {
                Self::lemma_read_step(s0, *self, 2);
                assert(self.ahead(0) == s0.ahead(1));
                assert(self.ahead(1) == s0.ahead(2));
            }
        }
        self.parse_block()
    }

    #[verifier::spinoff_prover]
    pub(crate) fn parse_throw_stmt(&mut self) -> (r: Res<Expr>)
        requires
            old(self).inv(),
        ensures
            final(self).moved(*old(self), r is Ok),
        decreases old(self).rank(), 1nat,
    {
        self.expect_keyword(Keyword::Throw)?;
        let arg = self.parse_expression()?;
        self.consume_semicolon()?;
        Ok(arg)
    }

    #[verifier::spinoff_prover]
    pub(crate) fn parse_switch_stmt(&mut self) -> (r: Res<SwitchStmt>)
        requires
            old(self).inv(),
        ensures
            final(self).moved(*old(self), r is Ok),
            r matches Ok(s) ==> forall|i: int, j: int|
                0 <= i < j < s.cases.len() ==> !(s.cases@[i].test is None && s.cases@[j].test is None),
        decreases old(self).rank(), 1nat,
    {
        self.expect_keyword(Keyword::Switch)?;
        self.expect_punct(Punct::OpenParen)?;
        let discriminant = self.parse_expression()?;
        self.expect_punct(Punct::CloseParen)?;
        self.expect_punct(Punct::OpenBrace)?;
        let prev_sw = self.context.in_switch;
        self.set_flag(Flag::InSwitch, true);
        let mut found_default = false;
        let mut cases: Vec<SwitchCase> = Vec::new();
        loop
            invariant
                self.advanced(*old(self)),
                found_default == exists|i: int| 0 <= i < cases.len() && cases@[i].test is None,
                forall|i: int, j: int|
                    0 <= i < j < cases.len() ==> !(cases@[i].test is None && cases@[j].test is None),
            decreases self.rank(),
        {
            if self.at_punct(Punct::CloseBrace) {
                break;
            }
            let case = self.parse_switch_case()?;
            let is_default = case.test.is_none();
            if is_default {
                if found_default {
                    return self.expected_token_error(&self.look_ahead, &[]);
                }
            }
            let ghost before = cases@;
            cases.push(case);
            proof {
                assert(forall|i: int| 0 <= i < before.len() ==> cases@[i] == before[i]);
                assert(cases@[before.len() as int].test is None == is_default);
                if is_default {
                    assert(cases@[before.len() as int].test is None);
                }
                if found_default {
                    let w = choose|i: int| 0 <= i < before.len() && before[i].test is None;
                    assert(cases@[w].test is None);
                }
            }
            if is_default {
                found_default = true;
            }
        }
        self.expect_punct(Punct::CloseBrace)?;
        self.set_flag(Flag::InSwitch, prev_sw);
        Ok(SwitchStmt { discriminant, cases })
    }

    #[verifier::spinoff_prover]
    pub(crate) fn parse_switch_case(&mut self) -> (r: Res<SwitchCase>)
        requires
            old(self).inv(),
        ensures
            final(self).moved(*old(self), r is Ok),
            r matches Ok(c) ==> (c.test is None <==> old(self).look_ahead.spec_is_keyword(
                Keyword::Default,
            )),
        decreases old(self).rank(), 1nat,
    {
        let test = if self.at_keyword(Keyword::Default) {
            self.expect_keyword(Keyword::Default)?;
            None
        } else {
            self.expect_keyword(Keyword::Case)?;
            Some(self.parse_expression()?)
        };
        self.expect_punct(Punct::Colon)?;
        let mut consequent: Vec<ProgramPart> = Vec::new();
        loop
            invariant
                self.advanced(*old(self)),
            decreases self.rank(),
        {
            if self.at_punct(Punct::CloseBrace) || self.at_keyword(Keyword::Default)
                || self.at_keyword(Keyword::Case) {
                break;
            }
            consequent.push(self.parse_statement_list_item()?);
        }
        Ok(SwitchCase { test, consequent })
    }

    #[verifier::spinoff_prover]
    pub(crate) fn parse_return_stmt(&mut self) -> (r: Res<Option<Expr>>)
        requires
            old(self).inv(),
        ensures
            final(self).moved(*old(self), r is Ok),
            !old(self).context.in_function_body ==> r is Err,
        decreases old(self).rank(), 1nat,
    {
        if !self.context.in_function_body {
            return self.unexpected_token_error(&self.look_ahead, "cannot return in the global context");
        }
        self.expect_keyword(Keyword::Return)?;
        let ret = if self.at_return_arg() {
            Some(self.parse_expression()?)
        } else {
            None
        };
        self.consume_semicolon()?;
        Ok(ret)
    }

    #[verifier::spinoff_prover]
    pub(crate) fn parse_if_stmt(&mut self) -> (r: Res<IfStmt>)
        requires
            old(self).inv(),
        ensures
            final(self).moved(*old(self), r is Ok),
        decreases old(self).rank(), 1nat,
    {
        self.expect_keyword(Keyword::If)?;
        self.expect_punct(Punct::OpenParen)?;
        let test = self.parse_expression()?;
        if !self.at_punct(Punct::CloseParen) {
            if !self.config.tolerant {
                return self.expected_token_error(&self.look_ahead, &[")"]);
            }
            return Ok(IfStmt { test, consequent: Box::new(Stmt::Empty), alternate: None });
        }
        self.expect_punct(Punct::CloseParen)?;
        let c = self.parse_if_clause()?;
        let a = if self.at_keyword(Keyword::Else) {
            let _ = self.next_item()?;
            Some(Box::new(self.parse_if_clause()?))
        } else {
            None
        };
        Ok(IfStmt { test, consequent: Box::new(c), alternate: a })
    }

    #[verifier::spinoff_prover]
    pub(crate) fn parse_if_clause(&mut self) -> (r: Res<Stmt>)
        requires
            old(self).inv(),
        ensures
            final(self).moved(*old(self), r is Ok),
        decreases old(self).rank(), 13nat,
    {
        if self.context.strict && self.at_keyword(Keyword::Function) {
            if !self.config.tolerant {
                return self.unexpected_token_error(&self.look_ahead, "");
            }
        }
        self.parse_statement()
    }

    #[verifier::spinoff_prover]
    pub(crate) fn parse_fn_stmt(&mut self) -> (r: Res<Expr>)
        requires
            old(self).inv(),
        ensures
            final(self).moved(*old(self), r is Ok),
            r matches Ok(e) ==> e is Function,
        decreases old(self).rank(), 2nat,
    {
        let decl = self.parse_function_decl(true)?;
        Ok(Expr::Function(decl))
    }

    #[verifier::spinoff_prover]
    #[verifier::rlimit(100)]
    pub(crate) fn parse_for_stmt(&mut self) -> (r: Res<Stmt>)
        requires
            old(self).inv(),
        ensures
            final(self).moved(*old(self), r is Ok),
            r matches Ok(s) ==> s is For || s is ForIn || s is ForOf,
            old(self).empty_for_ahead() ==> (r matches Ok(Stmt::For(f)) && f.init is None
                && f.test is None && f.update is None && *f.body == Stmt::Empty),
            old(self).for_in_ahead() ==> r == Ok::<Stmt, ParseError>(
                Stmt::ForIn(
                    ForInStmt {
                        left: LoopLeft::Expr(simple_tree(old(self).ahead(1))),
                        right: simple_tree(old(self).ahead(3)),
                        body: Box::new(Stmt::Empty),
                    },
                ),
            ),
        decreases old(self).rank(), 1nat,
    {
        let ghost s0 = *self;
        let ghost fin = s0.for_in_ahead();
        proof {
            if s0.empty_for_ahead() {
                s0.lemma_can_read_advance(5);
            }
            if fin {
                s0.lemma_can_read_advance(6);
            }
        }
        self.expect_keyword(Keyword::For)?;
        let ghost s1 = *self;
        proof {
            if s0.empty_for_ahead() || fin {
                Self::lemma_read_one(s0, s1);
                assert(s0.can_read(5 + 1));
                s1.lemma_can_read_advance(4);
            }
        }
        let is_await = if self.at_keyword(Keyword::Await) {
            let _ = self.next_item()?;
            true
        } else {
            false
        };
        self.expect_punct(Punct::OpenParen)?;
        proof {
            if s0.empty_for_ahead() {
                let s2 = *self;
                assert(s1.can_read(1)) by {
                    assert(s0.can_read(1 + 1));
                }
                Self::lemma_read_one(s1, s2);
                Self::lemma_reads_compose(s0, s1, s2, 1, 1);
                assert(s0.can_read(4 + 2));
                assert(s2.ahead(0) == s0.ahead(0 + 2));
                assert(s2.ahead(1) == s0.ahead(1 + 2));
                assert(s2.ahead(2) == s0.ahead(2 + 2));
                assert(s2.empty_loop_rest_ahead());
            }
            if fin {
                let s2 = *self;
                assert(s1.can_read(1)) by {
                    assert(s0.can_read(1 + 1));
                }
                Self::lemma_read_one(s1, s2);
                Self::lemma_reads_compose(s0, s1, s2, 1, 1);
                assert(s0.can_read(5 + 2));
                assert(s1.ahead(0) == s0.ahead(0 + 1));
                assert(s2.ahead(0) == s0.ahead(0 + 2));
                assert(s2.ahead(1) == s0.ahead(1 + 2));
                assert(s2.ahead(2) == s0.ahead(2 + 2));
                assert(s2.ahead(3) == s0.ahead(3 + 2));
                assert(s2.for_in_head_ahead());
            }
        }
        if self.at_punct(Punct::SemiColon) {
            let stmt = self.parse_for_loop(VariableKind::Var)?;
            return Ok(Stmt::For(stmt));
        }
        if self.at_keyword(Keyword::Var) {
            let _ = self.next_item()?;
            let kind = VariableKind::Var;
            let prev_in = self.context.allow_in;
            self.set_flag(Flag::AllowIn, false);
            let mut bindings = self.parse_variable_decl_list(true)?;
            self.set_flag(Flag::AllowIn, prev_in);
            if bindings.len() == 1 {
                let decl = match bindings.pop() {
                    Some(d) => d,
                    None => {
                        return self.expected_token_error(&self.look_ahead, &["variable decl"]);
                    },
                };
                if self.at_keyword(Keyword::In) {
                    let left = LoopLeft::Variable(kind, decl);
                    let stmt = self.parse_for_in_loop(left)?;
                    Ok(Stmt::ForIn(stmt))
                } else if self.at_contextual_keyword("of") {
                    let left = LoopLeft::Variable(kind, decl);
                    let stmt = self.parse_for_of_loop(left, is_await)?;
                    Ok(Stmt::ForOf(stmt))
                } else {
                    let init = LoopInit::Variable(kind, vec![decl]);
                    let stmt = self.parse_for_loop_cont(Some(init))?;
                    Ok(Stmt::For(stmt))
                }
            } else {
                let init = LoopInit::Variable(kind, bindings);
                let stmt = self.parse_for_loop_cont(Some(init))?;
                Ok(Stmt::For(stmt))
            }
        } else if self.at_keyword(Keyword::Const) || self.at_keyword(Keyword::Let) {
            let kind_item = self.next_item()?;
            let kind = match kind_item.kind {
                TokKind::Keyword(Keyword::Const) => VariableKind::Const,
                TokKind::Keyword(Keyword::Let) => VariableKind::Let,
                _ => {
                    return self.expected_token_error(&kind_item, &["const", "let"]);
                },
            };
            if !self.context.strict && self.look_ahead.matches_keyword(Keyword::In) {
                let _in = self.next_item()?;
                let k = match kind {
                    VariableKind::Var => "var",
                    VariableKind::Let => "let",
                    VariableKind::Const => "const",
                };
                let left = LoopLeft::Expr(Expr::Ident(String::from_str(k)));
                let right = self.parse_expression()?;
                let body = self.parse_loop_body()?;
                Ok(Stmt::ForIn(ForInStmt { left, right, body: Box::new(body) }))
            } else {
                let prev_in = self.context.allow_in;
                self.set_flag(Flag::AllowIn, false);
                let mut decls = self.parse_binding_list(kind, true)?;
                self.set_flag(Flag::AllowIn, prev_in);
                if decls.len() == 1 {
                    let decl = match decls.pop() {
                        Some(d) => d,
                        None => {
                            return self.expected_token_error(&self.look_ahead, &["variable decl"]);
                        },
                    };
                    if decl.init.is_none() && self.at_keyword(Keyword::In) {
                        let left = LoopLeft::Variable(kind, decl);
                        let _in = self.next_item()?;
                        let right = self.parse_expression()?;
                        let body = self.parse_loop_body()?;
                        Ok(Stmt::ForIn(ForInStmt { left, right, body: Box::new(body) }))
                    } else if decl.init.is_none() && self.at_contextual_keyword("of") {
                        let left = LoopLeft::Variable(kind, decl);
                        Ok(Stmt::ForOf(self.parse_for_of_loop(left, is_await)?))
                    } else {
                        let init = LoopInit::Variable(kind, vec![decl]);
                        let stmt = self.parse_for_loop_cont(Some(init))?;
                        Ok(Stmt::For(stmt))
                    }
                } else {
                    let init = LoopInit::Variable(kind, decls);
                    let stmt = self.parse_for_loop_cont(Some(init))?;
                    Ok(Stmt::For(stmt))
                }
            }
        } else {
            self.parse_for_expr_head(is_await)
        }
    }

    /// The rest of a `for` statement whose head starts with an expression,
    /// after its `(`: a `for`-`in` or `for`-`of` loop over that expression,
    /// or a plain loop with it (or a sequence of expressions) as its start.
    #[verifier::spinoff_prover]
    #[verifier::rlimit(100)]
    fn parse_for_expr_head(&mut self, is_await: bool) -> (r: Res<Stmt>)
        requires
            old(self).inv(),
        ensures
            final(self).moved(*old(self), r is Ok),
            r matches Ok(s) ==> s is For || s is ForIn || s is ForOf,
            old(self).for_in_head_ahead() ==> r == Ok::<Stmt, ParseError>(
                Stmt::ForIn(
                    ForInStmt {
                        left: LoopLeft::Expr(simple_tree(old(self).look_ahead)),
                        right: simple_tree(old(self).ahead(1)),
                        body: Box::new(Stmt::Empty),
                    },
                ),
            ),
        decreases old(self).rank(), 10nat,
    {
        let ghost s0 = *self;
        let ghost fi = s0.for_in_head_ahead();
        let prev_in = self.context.allow_in;
        self.set_flag(Flag::AllowIn, false);
        let (prev_bind, prev_assign, prev_first) = self.inherit_cover_grammar();
        let ghost m0 = *self;
        proof {
            if fi {
                reveal(crate::parser::with_flag);
                Self::lemma_reads_same(s0, m0);
                assert(s0.can_read(4 + 1));
                s0.lemma_can_read_advance(4);
                assert(m0.context.allow_in == false);
                assert(m0.next_token() == m0.ahead(0));
                assert(m0.simple_ahead());
            }
        }
        let init = self.parse_assignment_expr()?;
        let ghost m1 = *self;
        self.set_inherit_cover_grammar_state(prev_bind, prev_assign, prev_first);
        self.set_flag(Flag::AllowIn, prev_in);
        proof {
            if fi {
                Self::lemma_reads_same(m1, *self);
                Self::lemma_reads_compose(s0, m0, m1, 0, 1);
                Self::lemma_reads_compose(s0, m1, *self, 1, 0);
                assert(s0.can_read(3 + 1));
                self.lemma_can_read_advance(3);
            }
        }
        if self.at_keyword(Keyword::In) {
            let ghost m2 = *self;
            let _ = self.next_item()?;
            let ghost m3 = *self;
            proof {
                if fi {
                    Self::lemma_read_one(m2, m3);
                    Self::lemma_reads_compose(s0, m2, m3, 1, 1);
                    assert(m2.ahead(0) == s0.ahead(0 + 1));
                    assert(s0.can_read(2 + 2));
                    m3.lemma_can_read_advance(2);
                    assert(m3.ahead(0) == s0.ahead(0 + 2));
                    assert(m3.next_token() == m3.ahead(0));
                    assert(m3.simple_ahead());
                }
            }
            let left = LoopLeft::Expr(init);
            let right = self.parse_expression()?;
            proof {
                if fi {
                    Self::lemma_reads_compose(s0, m3, *self, 2, 1);
                    assert(s0.can_read(2 + 3));
                    assert(self.ahead(0) == s0.ahead(0 + 3));
                    assert(self.empty_body_ahead());
                }
            }
            let body = self.parse_loop_body()?;
            Ok(Stmt::ForIn(ForInStmt { left, right, body: Box::new(body) }))
        } else if self.at_contextual_keyword("of") {
            let _ = self.next_item()?;
            let left = LoopLeft::Expr(init);
            let right = self.parse_assignment_expr()?;
            let body = self.parse_loop_body()?;
            Ok(Stmt::ForOf(ForOfStmt { left, right, body: Box::new(body), is_await }))
        } else {
            let init = if self.at_punct(Punct::Comma) {
                let mut seq: Vec<Expr> = vec![init];
                while self.at_punct(Punct::Comma)
                    invariant
                        self.advanced(*old(self)),
                        !old(self).for_in_head_ahead(),
                    decreases self.rank(),
                {
                    let _comma = self.next_item()?;
                    let (prev_bind, prev_assign, prev_first) = self.inherit_cover_grammar();
                    seq.push(self.parse_assignment_expr()?);
                    self.set_inherit_cover_grammar_state(prev_bind, prev_assign, prev_first);
                }
                LoopInit::Expr(Expr::Sequence(seq))
            } else {
                LoopInit::Expr(init)
            };
            Ok(Stmt::For(self.parse_for_loop_cont(Some(init))?))
        }
    }

    #[verifier::spinoff_prover]
    pub(crate) fn parse_for_loop(&mut self, kind: VariableKind) -> (r: Res<ForStmt>)
        requires
            old(self).inv(),
        ensures
            final(self).moved(*old(self), r is Ok),
            old(self).empty_loop_rest_ahead() ==> (r matches Ok(f) && f.init is None && f.test is None
                && f.update is None && *f.body == Stmt::Empty),
        decreases old(self).rank(), 5nat,
    {
        let init = if self.at_punct(Punct::SemiColon) {
            None
        } else {
            let list = self.parse_variable_decl_list(true)?;
            Some(LoopInit::Variable(kind, list))
        };
        self.parse_for_loop_cont(init)
    }

    #[verifier::spinoff_prover]
    pub(crate) fn parse_for_loop_cont(&mut self, init: Option<LoopInit>) -> (r: Res<ForStmt>)
        requires
            old(self).inv(),
        ensures
            final(self).moved(*old(self), r is Ok),
            old(self).empty_loop_rest_ahead() ==> (r matches Ok(f) && f.init == init && f.test is None
                && f.update is None && *f.body == Stmt::Empty),
            r matches Ok(f) ==> f.init == init && (f.test is None <==> old(self).next_token().spec_is_punct(
                Punct::SemiColon,
            )),
            old(self).loop_test_update_ahead() ==> (r matches Ok(f) ==> f.test == Some(
                simple_tree(old(self).ahead(0)),
            ) && f.update == Some(simple_tree(old(self).ahead(2)))),
        decreases old(self).rank(), 1nat,
    {
        let ghost s0 = *self;
        let ghost shape = s0.empty_loop_rest_ahead();
        let ghost simp = s0.loop_test_update_ahead();
        proof {
            if shape {
                s0.lemma_can_read_advance(3);
            }
        }
        self.expect_punct(Punct::SemiColon)?;
        let ghost s1 = *self;
        proof {
            s0.lemma_advance_reads();
            reveal(Parser::reads_next);
            if shape {
                Self::lemma_read_one(s0, s1);
                assert(s0.can_read(3 + 1));
                assert(s1.can_read(3));
                s1.lemma_can_read_advance(2);
            }
            if simp {
                Self::lemma_read_one(s0, s1);
                assert(s0.can_read(3 + 1));
                s1.lemma_can_read_advance(2);
                assert(s1.ahead(0) == s0.ahead(0 + 1));
                assert(s1.next_token() == s1.ahead(0));
                assert(s1.simple_ahead());
            }
        }
        let test = if self.at_punct(Punct::SemiColon) {
            None
        } else {
            Some(self.parse_expression()?)
        };
        let ghost s2 = *self;
        proof {
            if simp {
                Self::lemma_reads_compose(s0, s1, s2, 1, 1);
                assert(s0.can_read(1 + 2));
                s2.lemma_can_read_advance(0);
            }
        }
        self.expect_punct(Punct::SemiColon)?;
        proof {
            if shape {
                Self::lemma_read_one(s1, *self);
                Self::lemma_reads_compose(s0, s1, *self, 1, 1);
                assert(s0.can_read(2 + 2));
                assert(self.ahead(0) == s0.ahead(0 + 2));
            }
            if simp {
                Self::lemma_read_one(s2, *self);
                Self::lemma_reads_compose(s0, s2, *self, 2, 1);
                assert(s2.ahead(0) == s0.ahead(0 + 2));
                assert(s0.can_read(1 + 3));
                self.lemma_can_read_advance(0);
                assert(self.ahead(0) == s0.ahead(0 + 3));
                assert(self.next_token() == self.ahead(0));
                assert(self.simple_ahead());
            }
        }
        let update = if self.at_punct(Punct::CloseParen) {
            None
        } else {
            Some(self.parse_expression()?)
        };
        let body = self.parse_loop_body()?;
        Ok(ForStmt { init, test, update, body: Box::new(body) })
    }

    #[verifier::spinoff_prover]
    pub(crate) fn parse_for_in_loop(&mut self, left: LoopLeft) -> (r: Res<ForInStmt>)
        requires
            old(self).inv(),
        ensures
            final(self).moved(*old(self), r is Ok),
        decreases old(self).rank(), 1nat,
    {
        let _ = self.next_item()?;
        let right = self.parse_expression()?;
        let body = self.parse_loop_body()?;
        Ok(ForInStmt { left, right, body: Box::new(body) })
    }

    #[verifier::spinoff_prover]
    pub(crate) fn parse_for_of_loop(&mut self, left: LoopLeft, is_await: bool) -> (r: Res<ForOfStmt>)
        requires
            old(self).inv(),
        ensures
            final(self).moved(*old(self), r is Ok),
            r matches Ok(s) ==> s.is_await == is_await,
        decreases old(self).rank(), 1nat,
    {
        let _ = self.next_item()?;
        let right = self.parse_assignment_expr()?;
        let body = self.parse_loop_body()?;
        Ok(ForOfStmt { left, right, body: Box::new(body), is_await })
    }

    #[verifier::spinoff_prover]
    pub(crate) fn parse_loop_body(&mut self) -> (r: Res<Stmt>)
        requires
            old(self).inv(),
        ensures
            final(self).moved(*old(self), r is Ok),
            old(self).empty_body_ahead() ==> r == Ok::<Stmt, ParseError>(Stmt::Empty)
                && Self::reads_from(*old(self), *final(self), 2),
        decreases old(self).rank(), 1nat,
    {
        let ghost s0 = *self;
        let ghost shape = s0.empty_body_ahead();
        proof {
            if shape {
                s0.lemma_can_read_advance(1);
            }
        }
        self.expect_punct(Punct::CloseParen)?;
        let ghost s1 = *self;
        proof {
            if shape {
                Self::lemma_read_one(s0, s1);
                assert(s0.can_read(1 + 1));
            }
        }
        let prev_iter = self.context.in_iteration;
        self.set_flag(Flag::InIteration, true);
        let (prev_bind, prev_assign, prev_first) = self.isolate_cover_grammar();
        let ghost s3 = *self;
        proof {
            if shape {
                Self::lemma_reads_same(s1, s3);
                Self::lemma_reads_compose(s0, s1, s3, 1, 0);
                assert(s0.can_read(1 + 1));
            }
        }
        let ret = self.parse_statement()?;
        let ghost s4 = *self;
        self.set_isolate_cover_grammar_state(prev_bind, prev_assign, prev_first)?;
        self.set_flag(Flag::InIteration, prev_iter);
        proof {
            if shape {
                Self::lemma_reads_same(s4, *self);
                Self::lemma_reads_compose(s0, s3, s4, 1, 1);
                Self::lemma_reads_compose(s0, s4, *self, 2, 0);
            }
        }
        Ok(ret)
    }

    #[verifier::spinoff_prover]
    pub(crate) fn parse_do_while_stmt(&mut self) -> (r: Res<DoWhileStmt>)
        requires
            old(self).inv(),
        ensures
            final(self).moved(*old(self), r is Ok),
        decreases old(self).rank(), 1nat,
    {
        self.expect_keyword(Keyword::Do)?;
        let prev_iter = self.context.in_iteration;
        self.set_flag(Flag::InIteration, true);
        let body = self.parse_statement()?;
        self.set_flag(Flag::InIteration, prev_iter);
        self.expect_keyword(Keyword::While)?;
        self.expect_punct(Punct::OpenParen)?;
        let test = self.parse_expression()?;
        self.expect_punct(Punct::CloseParen)?;
        if self.look_ahead.matches_punct(Punct::SemiColon) {
            self.expect_punct(Punct::SemiColon)?;
        }
        Ok(DoWhileStmt { test, body: Box::new(body) })
    }

    #[verifier::spinoff_prover]
    pub(crate) fn parse_break_stmt(&mut self) -> (r: Res<Option<String>>)
        requires
            old(self).inv(),
        ensures
            final(self).moved(*old(self), r is Ok),
            r is Ok ==> old(self).look_ahead.spec_is_keyword(Keyword::Break) && old(self).can_advance(),
            old(self).look_ahead.spec_is_keyword(Keyword::Break) && old(self).can_advance() && (old(
                self,
            ).next_token().spec_is_punct(Punct::CloseBrace) || old(self).next_token().kind is EoF)
                ==> r == Ok::<Option<String>, ParseError>(None),
    {
        self.parse_optionally_labeled_statement(Keyword::Break)
    }

    #[verifier::spinoff_prover]
    pub(crate) fn parse_continue_stmt(&mut self) -> (r: Res<Option<String>>)
        requires
            old(self).inv(),
        ensures
            final(self).moved(*old(self), r is Ok),
            r is Ok ==> old(self).look_ahead.spec_is_keyword(Keyword::Continue) && old(self).can_advance(),
            old(self).look_ahead.spec_is_keyword(Keyword::Continue) && old(self).can_advance() && (old(
                self,
            ).next_token().spec_is_punct(Punct::CloseBrace) || old(self).next_token().kind is EoF)
                ==> r == Ok::<Option<String>, ParseError>(None),
    {
        self.parse_optionally_labeled_statement(Keyword::Continue)
    }

    /// `break` or `continue`, with the label that follows on the same line.
    #[verifier::spinoff_prover]
    pub(crate) fn parse_optionally_labeled_statement(&mut self, k: Keyword) -> (r: Res<
        Option<String>,
    >)
        requires
            old(self).inv(),
        ensures
            final(self).moved(*old(self), r is Ok),
            r is Ok ==> old(self).look_ahead.spec_is_keyword(k) && old(self).can_advance(),
            old(self).look_ahead.spec_is_keyword(k) && old(self).can_advance() && (old(
                self,
            ).next_token().spec_is_punct(Punct::CloseBrace) || old(self).next_token().kind is EoF)
                ==> r == Ok::<Option<String>, ParseError>(None),
    {
        proof {
            if old(self).look_ahead.spec_is_keyword(k) && old(self).can_advance() {
                old(self).lemma_advance_reads();
            }
            reveal(Parser::reads_next);
        }
        self.expect_keyword(k)?;
        let ret = if self.look_ahead.is_ident() && !self.has_line_term {
            let id = self.parse_var_ident(false)?;
            Some(id)
        } else {
            None
        };
        self.consume_semicolon()?;
        Ok(ret)
    }

    #[verifier::spinoff_prover]
    pub(crate) fn parse_debugger_stmt(&mut self) -> (r: Res<Stmt>)
        requires
            old(self).inv(),
        ensures
            final(self).moved(*old(self), r is Ok),
            r matches Ok(s) ==> s is Debugger,
            r is Ok ==> old(self).look_ahead.spec_is_keyword(Keyword::Debugger) && old(
                self,
            ).can_advance(),
            old(self).look_ahead.spec_is_keyword(Keyword::Debugger) && old(self).can_advance() && (old(
                self,
            ).next_token().spec_is_punct(Punct::CloseBrace) || old(self).next_token().kind is EoF)
                ==> r == Ok::<Stmt, ParseError>(Stmt::Debugger),
    {
        proof {
            if old(self).look_ahead.spec_is_keyword(Keyword::Debugger) && old(self).can_advance() {
                old(self).lemma_advance_reads();
            }
            reveal(Parser::reads_next);
        }
        self.expect_keyword(Keyword::Debugger)?;
        self.consume_semicolon()?;
        Ok(Stmt::Debugger)
    }

    /// An expression statement, or a labelled statement where the
    /// expression is a name followed by `:`.  A label may not be declared
    /// again inside its own statement, and is out of scope after it.
    #[verifier::spinoff_prover]
    pub(crate) fn parse_labelled_statement(&mut self) -> (r: Res<Stmt>)
        requires
            old(self).inv(),
        ensures
            final(self).moved(*old(self), r is Ok),
            r matches Ok(s) ==> s is Expr || s is Labeled,
            old(self).simple_ahead() && ends_statement(old(self).next_token()) ==> r == Ok::<Stmt, ParseError>(
                Stmt::Expr(simple_tree(old(self).look_ahead)),
            ) && Self::read_once(*old(self), *final(self)),
            old(self).semi_simple_ahead() ==> r == Ok::<Stmt, ParseError>(
                Stmt::Expr(simple_tree(old(self).look_ahead)),
            ),
        decreases old(self).rank(), 11nat,
    {
        let ret = self.parse_expression()?;
        proof {
            if old(self).semi_simple_ahead() {
                assert(old(self).can_read(1 + 1));
                self.lemma_can_read_advance(0);
            }
        }
        if Self::is_ident(&ret) && self.at_punct(Punct::Colon) {
            let _colon = self.next_item()?;
            let id = match ret {
                Expr::Ident(ident) => ident,
                _ => {
                    return Err(self.reinterpret_error("expression", "ident"));
                },
            };
            let mut key = String::from_str("$");
            key.append(id.as_str());
            if !self.context.label_set.insert(key.clone()) {
                return Err(self.redecl_error(id.as_str()));
            }
            let body = if self.at_keyword(Keyword::Class) {
                let class = self.next_item()?;
                if !self.config.tolerant {
                    return self.unexpected_token_error(&class, "");
                }
                let body = self.parse_class_body()?;
                Stmt::Expr(Expr::Class(Class { id: None, super_class: None, body }))
            } else if self.at_keyword(Keyword::Function) {
                let f = self.parse_function_decl(true)?;
                Stmt::Expr(Expr::Function(f))
            } else {
                self.parse_statement()?
            };
            self.context.label_set.remove(key.as_str());
            Ok(Stmt::Labeled(LabeledStmt { label: id, body: Box::new(body) }))
        } else {
            self.consume_semicolon()?;
            Ok(Stmt::Expr(ret))
        }
    }

    #[verifier::spinoff_prover]
    pub(crate) fn parse_expression_statement(&mut self) -> (r: Res<Expr>)
        requires
            old(self).inv(),
        ensures
            final(self).moved(*old(self), r is Ok),
            old(self).simple_ahead() && ends_statement(old(self).next_token()) ==> r == Ok::<Expr, ParseError>(
                simple_tree(old(self).look_ahead),
            ) && Self::read_once(*old(self), *final(self)),
            old(self).semi_simple_ahead() ==> r == Ok::<Expr, ParseError>(
                simple_tree(old(self).look_ahead),
            ),
        decreases old(self).rank(), 11nat,
    {
        let ret = self.parse_expression()?;
        proof {
            if old(self).semi_simple_ahead() {
                assert(old(self).can_read(1 + 1));
                self.lemma_can_read_advance(0);
            }
        }
        self.consume_semicolon()?;
        Ok(ret)
    }

    /// An expression, or a sequence of them separated by commas.
    #[verifier::spinoff_prover]
    pub(crate) fn parse_expression(&mut self) -> (r: Res<Expr>)
        requires
            old(self).inv(),
        ensures
            final(self).moved(*old(self), r is Ok),
            old(self).simple_ahead() && !old(self).next_token().spec_is_punct(Punct::Comma) ==> r
                == Ok::<Expr, ParseError>(simple_tree(old(self).look_ahead))
                && Self::read_once(*old(self), *final(self)),
        decreases old(self).rank(), 10nat,
    {
        let (prev_bind, prev_assign, prev_first) = self.isolate_cover_grammar();
        let ghost m0 = *self;
        let ret = self.parse_assignment_expr()?;
        let ghost m1 = *self;
        self.set_isolate_cover_grammar_state(prev_bind, prev_assign, prev_first)?;
        proof {
            if old(self).simple_ahead() {
                Self::lemma_read_once_frame(*old(self), m0, m1, *self);
            }
        }
        if self.at_punct(Punct::Comma) {
            let mut list: Vec<Expr> = vec![ret];
            while !self.look_ahead.is_eof()
                invariant
                    self.advanced(*old(self)),
                    !(old(self).simple_ahead() && !old(self).next_token().spec_is_punct(Punct::Comma)),
                decreases self.rank(),
            {
                if !self.at_punct(Punct::Comma) {
                    break;
                }
                let _comma = self.next_item()?;
                let (prev_bind, prev_assign, prev_first) = self.isolate_cover_grammar();
                let expr = self.parse_assignment_expr()?;
                self.set_isolate_cover_grammar_state(prev_bind, prev_assign, prev_first)?;
                list.push(expr);
            }
            return Ok(Expr::Sequence(list));
        }
        Ok(ret)
    }

    #[verifier::spinoff_prover]
    pub(crate) fn parse_block(&mut self) -> (r: Res<BlockStmt>)
        requires
            old(self).inv(),
        ensures
            final(self).moved(*old(self), r is Ok),
            r is Ok ==> old(self).look_ahead.spec_is_punct(Punct::OpenBrace),
            old(self).empty_block_ahead() ==> (r matches Ok(v) && v.len() == 0 && final(self).look_ahead
                == old(self).ahead(1) && forall|k: nat|
                old(self).can_read(k + 2) ==> #[trigger] final(self).can_read(k)),
            old(self).empty_block_ahead() ==> forall|m: nat|
                #[trigger] final(self).ahead(m) == old(self).ahead(m + 2),
        decreases old(self).rank(), 1nat,
    {
        let ghost s0 = *self;
        let ghost empty = s0.empty_block_ahead();
        proof {
            if empty {
                s0.lemma_can_read_advance(1);
            }
        }
        self.expect_punct(Punct::OpenBrace)?;
        let ghost s1 = *self;
        proof {
            if empty {
                Self::lemma_read_step(s0, s1, 1);
            }
        }
        let mut ret: Vec<ProgramPart> = Vec::new();
        loop
            invariant
                self.advanced(*old(self)),
                empty == old(self).empty_block_ahead(),
                empty ==> ret.len() == 0 && *self == s1 && self.look_ahead.spec_is_punct(
                    Punct::CloseBrace,
                ),
            ensures
                self.advanced(*old(self)),
                empty ==> ret.len() == 0 && *self == s1,
            decreases self.rank(),
        {
            if self.at_punct(Punct::CloseBrace) {
                break;
            }
            let part = self.parse_statement_list_item()?;
            ret.push(part);
        }
        proof {
            if empty {
                s1.lemma_can_read_advance(0);
            }
        }
        self.expect_punct(Punct::CloseBrace)?;
        proof {
            if empty {
                Self::lemma_read_step(s1, *self, 0);
                assert forall|k: nat| s0.can_read(k + 2) implies #[trigger] self.can_read(k) by {
                    Self::lemma_read_step(s0, s1, k + 1);
                    Self::lemma_read_step(s1, *self, k);
                }
                assert forall|m: nat| #[trigger] self.ahead(m) == s0.ahead(m + 2) by {
                    Self::lemma_read_step(s0, s1, 1);
                    Self::lemma_read_step(s1, *self, 0);
                    assert(self.ahead(m) == s1.ahead(m + 1));
                }
            }
        }
        Ok(ret)
    }
}

} // verus!

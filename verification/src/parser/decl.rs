//! Declarations: variables, functions, classes and their methods.
use vstd::prelude::*;
use vstd::string::StringExecFns;
use crate::ast::{
    Pat,
    Class, Decl, Expr, Function, FunctionBody, ProgramPart, Property, PropertyKey, PropertyKind,
    PropertyValue, VariableDecl, VariableKind,
};
use crate::error::ParseError;
use crate::labels::LabelSet;
use crate::parser::{CommentHandler, Flag, Parser, Res};
use crate::tokens::{Keyword, Punct, TokItem, TokKind};

verus! {

impl<'a, CH: CommentHandler> Parser<'a, CH> {
    #[verifier::spinoff_prover]
    pub(crate) fn parse_lexical_decl(&mut self, in_for: bool) -> (r: Res<Decl>)
        requires
            old(self).inv(),
        ensures
            final(self).moved(*old(self), r is Ok),
            r matches Ok(d) ==> d matches Decl::Variable(k, _) && (k == VariableKind::Let
                <==> old(self).look_ahead.spec_is_keyword(Keyword::Let)) && (k == VariableKind::Const
                <==> old(self).look_ahead.spec_is_keyword(Keyword::Const)),
            old(self).look_ahead.spec_is_keyword(Keyword::Let) && old(self).can_read(2) && !old(
                self,
            ).ahead(0).spec_is_punct(Punct::OpenBracket) && !old(self).ahead(0).spec_is_punct(
                Punct::OpenBrace,
            ) && !old(self).ahead(0).spec_is_keyword(Keyword::Let) && crate::parser::primary::ident_ok(
                old(self).context,
                old(self).config.is_module,
                old(self).ahead(0),
                false,
            ) && !(old(self).context.strict && !old(self).config.tolerant && (old(self).ahead(0).text@
                == "eval"@ || old(self).ahead(0).text@ == "arguments"@)) && (old(self).ahead(
                1,
            ).spec_is_punct(Punct::CloseBrace) || old(self).ahead(1).kind is EoF) ==> (r matches Ok(Decl::Variable(k, v)) && k == VariableKind::Let && v.len() == 1),
        decreases old(self).rank(), 1nat,
    {
        let ghost s0 = *self;
        let ghost shape = s0.look_ahead.spec_is_keyword(Keyword::Let) && s0.can_read(2) && !s0.ahead(0).spec_is_punct(Punct::OpenBracket) && !s0.ahead(0).spec_is_punct(
                Punct::OpenBrace,
            ) && !s0.ahead(0).spec_is_keyword(Keyword::Let) && crate::parser::primary::ident_ok(
                s0.context,
                s0.config.is_module,
                s0.ahead(0),
                false,
            ) && !(s0.context.strict && !s0.config.tolerant && (s0.ahead(0).text@
                == "eval"@ || s0.ahead(0).text@ == "arguments"@)) && (s0.ahead(
                1,
            ).spec_is_punct(Punct::CloseBrace) || s0.ahead(1).kind is EoF);
        proof {
            if shape {
                s0.lemma_can_read_advance(1);
            }
        }
        let next = self.next_item()?;
        proof {
            if shape {
                Self::lemma_read_step(s0, *self, 1);
                self.lemma_can_read_advance(0);
                assert(self.next_token() == self.ahead(0));
            }
        }
        let kind = match next.kind {
            TokKind::Keyword(Keyword::Let) => VariableKind::Let,
            TokKind::Keyword(Keyword::Const) => VariableKind::Const,
            _ => {
                return self.expected_token_error(&next, &["let", "const"]);
            },
        };
        let decl = self.parse_binding_list(kind, in_for)?;
        self.consume_semicolon()?;
        Ok(Decl::Variable(kind, decl))
    }

    #[verifier::spinoff_prover]
    pub(crate) fn parse_binding_list(&mut self, kind: VariableKind, in_for: bool) -> (r: Res<
        Vec<VariableDecl>,
    >)
        requires
            old(self).inv(),
        ensures
            final(self).moved(*old(self), r is Ok),
            r matches Ok(v) ==> v.len() >= 1,
            kind != VariableKind::Const && old(self).plain_name_ahead(Some(kind)) && !(old(self).context.strict && !old(self).config.tolerant && (old(self).look_ahead.text@
                == "eval"@ || old(self).look_ahead.text@ == "arguments"@)) && !old(
                self,
            ).next_token().spec_is_punct(Punct::Comma) ==> (r matches Ok(v) && v.len() == 1 && final(self).look_ahead == old(self).next_token()),
        decreases old(self).rank(), 4nat,
    {
        let ghost single = kind != VariableKind::Const && old(self).plain_name_ahead(Some(kind)) && !(old(self).context.strict && !old(self).config.tolerant && (old(self).look_ahead.text@
            == "eval"@ || old(self).look_ahead.text@ == "arguments"@)) && !old(self).next_token().spec_is_punct(Punct::Comma);
        let mut ret: Vec<VariableDecl> = vec![self.parse_lexical_binding(kind, in_for)?];
        while self.at_punct(Punct::Comma)
            invariant
                self.advanced(*old(self)),
                ret.len() >= 1,
                single ==> ret.len() == 1 && !self.look_ahead.spec_is_punct(Punct::Comma)
                    && self.look_ahead == old(self).next_token(),
                single == (kind != VariableKind::Const && old(self).plain_name_ahead(Some(kind)) && !(old(self).context.strict && !old(self).config.tolerant && (old(self).look_ahead.text@
            == "eval"@ || old(self).look_ahead.text@ == "arguments"@)) && !old(self).next_token().spec_is_punct(Punct::Comma)),
            decreases self.rank(),
        {
            let _comma = self.next_item()?;
            ret.push(self.parse_lexical_binding(kind, in_for)?);
        }
        Ok(ret)
    }

    #[verifier::spinoff_prover]
    pub(crate) fn parse_variable_decl_list(&mut self, in_for: bool) -> (r: Res<Vec<VariableDecl>>)
        requires
            old(self).inv(),
        ensures
            final(self).moved(*old(self), r is Ok),
            r matches Ok(v) ==> v.len() >= 1,
            old(self).plain_name_ahead(Some(VariableKind::Var)) && !(old(self).context.strict && !old(self).config.tolerant && (old(self).look_ahead.text@
                == "eval"@ || old(self).look_ahead.text@ == "arguments"@)) && !old(
                self,
            ).next_token().spec_is_punct(Punct::Comma) ==> (r matches Ok(v) && v.len() == 1),
        decreases old(self).rank(), 4nat,
    {
        let ghost single = old(self).plain_name_ahead(Some(VariableKind::Var)) && !(old(self).context.strict && !old(self).config.tolerant && (old(self).look_ahead.text@
            == "eval"@ || old(self).look_ahead.text@ == "arguments"@)) && !old(self).next_token().spec_is_punct(Punct::Comma);
        let mut ret: Vec<VariableDecl> = vec![self.parse_variable_decl(in_for)?];
        while self.at_punct(Punct::Comma)
            invariant
                self.advanced(*old(self)),
                ret.len() >= 1,
                single ==> ret.len() == 1 && !self.look_ahead.spec_is_punct(Punct::Comma),
                single == (old(self).plain_name_ahead(Some(VariableKind::Var)) && !(old(self).context.strict && !old(self).config.tolerant && (old(self).look_ahead.text@
            == "eval"@ || old(self).look_ahead.text@ == "arguments"@)) && !old(self).next_token().spec_is_punct(Punct::Comma)),
            decreases self.rank(),
        {
            let _ = self.next_item()?;
            ret.push(self.parse_variable_decl(in_for)?);
        }
        Ok(ret)
    }

    #[verifier::spinoff_prover]
    pub(crate) fn parse_variable_decl(&mut self, in_for: bool) -> (r: Res<VariableDecl>)
        requires
            old(self).inv(),
        ensures
            final(self).moved(*old(self), r is Ok),
            old(self).plain_name_ahead(Some(VariableKind::Var)) && !(old(self).context.strict && !old(self).config.tolerant && (old(self).look_ahead.text@
                == "eval"@ || old(self).look_ahead.text@ == "arguments"@)) ==> (r matches Ok(d) && d.id
                == Pat::Identifier(old(self).look_ahead.text) && d.init is None && final(self).look_ahead == old(self).next_token()),
        decreases old(self).rank(), 3nat,
    {
        proof {
            if old(self).plain_name_ahead(Some(VariableKind::Var)) {
                old(self).lemma_name_reads(Some(VariableKind::Var));
            }
            reveal(Parser::reads_next);
        }
        let start = self.look_ahead.copy();
        let (_, id) = self.parse_pattern(Some(VariableKind::Var))?;
        if self.context.strict && Self::is_restricted(&id) {
            if !self.config.tolerant {
                return self.unexpected_token_error(&start, "restricted word");
            }
        }
        let init = if self.at_punct(Punct::Equal) {
            let _ = self.next_item()?;
            let (prev_bind, prev_assign, prev_first) = self.isolate_cover_grammar();
            let init = self.parse_assignment_expr()?;
            self.set_isolate_cover_grammar_state(prev_bind, prev_assign, prev_first)?;
            Some(init)
        } else if !Self::is_pat_ident(&id) && !in_for {
            self.expect_punct(Punct::Equal)?;
            None
        } else {
            None
        };
        Ok(VariableDecl { id, init })
    }

    /// A `let` or `const` binding: a `const` needs an initializer, unless
    /// `in` or `of` follows it.
    #[verifier::spinoff_prover]
    pub(crate) fn parse_lexical_binding(&mut self, kind: VariableKind, in_for: bool) -> (r: Res<
        VariableDecl,
    >)
        requires
            old(self).inv(),
        ensures
            final(self).moved(*old(self), r is Ok),
            kind != VariableKind::Const && old(self).plain_name_ahead(Some(kind)) && !(old(self).context.strict && !old(self).config.tolerant && (old(self).look_ahead.text@
                == "eval"@ || old(self).look_ahead.text@ == "arguments"@)) ==> (r matches Ok(
                d,
            ) && d.id == Pat::Identifier(old(self).look_ahead.text) && d.init is None && final(self).look_ahead == old(self).next_token()),
        decreases old(self).rank(), 3nat,
    {
        proof {
            if old(self).plain_name_ahead(Some(kind)) {
                old(self).lemma_name_reads(Some(kind));
            }
            reveal(Parser::reads_next);
        }
        let start = self.look_ahead.copy();
        let (_, id) = self.parse_pattern(Some(kind))?;
        if self.context.strict && Self::is_restricted(&id) {
            if !self.config.tolerant {
                return self.unexpected_token_error(&start, "restricted word");
            }
        }
        let init = if kind == VariableKind::Const {
            if !self.at_keyword(Keyword::In) && !self.at_contextual_keyword("of") {
                if self.at_punct(Punct::Equal) {
                    let _ = self.next_item()?;
                    let (prev_bind, prev_assign, prev_first) = self.isolate_cover_grammar();
                    let init = self.parse_assignment_expr()?;
                    self.set_isolate_cover_grammar_state(prev_bind, prev_assign, prev_first)?;
                    Some(init)
                } else {
                    return self.expected_token_error(&self.look_ahead, &["="]);
                }
            } else {
                None
            }
        } else if !in_for && !Self::is_pat_ident(&id) || self.at_punct(Punct::Equal) {
            self.expect_punct(Punct::Equal)?;
            let (prev_bind, prev_assign, prev_first) = self.isolate_cover_grammar();
            let init = self.parse_assignment_expr()?;
            self.set_isolate_cover_grammar_state(prev_bind, prev_assign, prev_first)?;
            Some(init)
        } else {
            None
        };
        Ok(VariableDecl { id, init })
    }

    /// A function declaration; `opt_ident` lets the name be left out.  The
    /// context flags that the function sets for its body are put back.
    #[verifier::spinoff_prover]
    pub(crate) fn parse_function_decl(&mut self, opt_ident: bool) -> (r: Res<Function>)
        requires
            old(self).inv(),
        ensures
            final(self).moved(*old(self), r is Ok),
            r matches Ok(f) ==> (f.is_async ==> !f.generator) && (!opt_ident ==> f.id is Some),
            r matches Ok(f) ==> (f.is_async <==> old(self).look_ahead.text@ == "async"@),
            old(self).look_ahead.text@ != "async"@ ==> (r matches Ok(f) ==> (f.generator
                <==> old(self).next_token().spec_is_punct(Punct::Asterisk))),
        decreases old(self).rank(), 1nat,
    {
        let ghost s0 = *self;
        let is_async = if self.at_contextual_keyword("async") {
            let _ = self.next_item()?;
            true
        } else {
            false
        };
        self.expect_keyword(Keyword::Function)?;
        proof {
            if !is_async {
                s0.lemma_advance_reads();
                reveal(Parser::reads_next);
            }
        }
        let is_gen = if is_async {
            false
        } else {
            let is_gen = self.at_punct(Punct::Asterisk);
            if is_gen {
                let _ = self.next_item()?;
            }
            is_gen
        };
        let (id, first_restricted) = if !opt_ident || !self.at_punct(Punct::OpenParen) {
            let start = self.look_ahead.copy();
            let id = self.parse_var_ident(false)?;
            if self.context.strict && start.is_restricted() {
                return self.expected_token_error(&start, &[]);
            }
            let first_restricted: Option<TokItem> = if !self.context.strict {
                if start.is_restricted() || start.is_strict_reserved() {
                    Some(start)
                } else {
                    None
                }
            } else {
                None
            };
            (Some(id), first_restricted)
        } else {
            (None, None)
        };
        let prev_await = self.context.allow_await;
        let prev_yield = self.context.allow_yield;
        self.set_flag(Flag::AllowAwait, is_async);
        self.set_flag(Flag::AllowYield, !is_gen);
        let formal_params = self.parse_formal_params()?;
        let strict = formal_params.strict;
        let params = formal_params.params;
        let prev_strict = self.context.strict;
        let prev_allow_strict = self.context.allow_strict_directive;
        self.set_flag(Flag::AllowStrictDirective, formal_params.simple);
        let body = self.parse_function_source_el()?;
        if self.context.strict {
            if let Some(item) = &first_restricted {
                return self.expected_token_error(item, &[]);
            }
        }
        if self.context.strict && strict {
            return self.expected_token_error(&self.look_ahead, &[]);
        }
        self.set_flag(Flag::Strict, prev_strict);
        self.set_flag(Flag::AllowStrictDirective, prev_allow_strict);
        self.set_flag(Flag::AllowAwait, prev_await);
        self.set_flag(Flag::AllowYield, prev_yield);
        Ok(Function { id, params, body, generator: is_gen, is_async })
    }

    /// The body of a function between braces: its directives, then its
    /// statements, read with a fresh label set, outside any loop or switch
    /// and inside a function body; those flags and labels are put back.
    #[verifier::spinoff_prover]
    pub(crate) fn parse_function_source_el(&mut self) -> (r: Res<FunctionBody>)
        requires
            old(self).inv(),
        ensures
            final(self).moved(*old(self), r is Ok),
            r is Ok ==> old(self).look_ahead.spec_is_punct(Punct::OpenBrace),
            old(self).empty_block_ahead() ==> (r matches Ok(v) && v@.len() == 0 && Self::reads_from(
                *old(self),
                *final(self),
                2,
            ) && final(self).look_ahead == old(self).ahead(1)),
        decreases old(self).rank(), 1nat,
    {
        let ghost s0 = *self;
        let ghost empty = s0.empty_block_ahead();
        proof {
            if empty {
                s0.lemma_can_read_advance(1);
            }
        }
        self.expect_punct(Punct::OpenBrace)?;
        let ghost s1 = *self;
        proof {
            if empty {
                Self::lemma_read_one(s0, s1);
                assert(s0.can_read(1 + 1));
            }
        }
        let mut body = self.parse_directive_prologues()?;
        let prev_label = self.context.label_set.duplicate();
        let prev_iter = self.context.in_iteration;
        let prev_switch = self.context.in_switch;
        let prev_in_fn = self.context.in_function_body;
        self.context.label_set = LabelSet::new();
        self.set_flag(Flag::InIteration, false);
        self.set_flag(Flag::InSwitch, false);
        self.set_flag(Flag::InFunctionBody, true);
        while !self.look_ahead.is_eof()
            invariant
                self.advanced(*old(self)),
                empty == old(self).empty_block_ahead(),
                empty ==> body.len() == 0 && self.look_ahead == s1.look_ahead && self.input == s1.input
                    && self.cursor == s1.cursor && self.scanner_eof == s1.scanner_eof
                    && self.scanner_errored == s1.scanner_errored && s1.look_ahead.spec_is_punct(
                    Punct::CloseBrace,
                ),
            decreases self.rank(),
        {
            if self.at_punct(Punct::CloseBrace) {
                break;
            }
            body.push(self.parse_statement_list_item()?);
        }
        let ghost s2 = *self;
        proof {
            if empty {
                Self::lemma_reads_same(s1, s2);
                assert(s2.can_read(1));
                s2.lemma_can_read_advance(0);
            }
        }
        self.expect_punct(Punct::CloseBrace)?;
        let ghost s3 = *self;
        proof {
            if empty {
                Self::lemma_read_one(s2, s3);
            }
        }
        self.context.label_set = prev_label;
        self.set_flag(Flag::InIteration, prev_iter);
        self.set_flag(Flag::InSwitch, prev_switch);
        self.set_flag(Flag::InFunctionBody, prev_in_fn);
        proof {
            if empty {
                Self::lemma_reads_same(s3, *self);
                Self::lemma_reads_compose(s0, s1, s2, 1, 0);
                Self::lemma_reads_compose(s0, s2, s3, 1, 1);
                Self::lemma_reads_compose(s0, s3, *self, 2, 0);
                assert(s2.ahead(0) == s1.ahead(0));
                assert(s1.ahead(0) == s0.ahead(0 + 1));
            }
        }
        Ok(body)
    }

    /// A class: strict mode code, with an optional name and super class.
    #[verifier::spinoff_prover]
    pub(crate) fn parse_class_decl(&mut self, opt_ident: bool) -> (r: Res<Class>)
        requires
            old(self).inv(),
        ensures
            final(self).moved(*old(self), r is Ok),
            r matches Ok(c) ==> !opt_ident ==> c.id is Some,
        decreases old(self).rank(), 1nat,
    {
        let prev_strict = self.context.strict;
        self.set_flag(Flag::Strict, true);
        self.expect_keyword(Keyword::Class)?;
        let mut super_class = if self.at_contextual_keyword("extends") {
            let _ = self.next_item()?;
            let (prev_bind, prev_assign, prev_first) = self.isolate_cover_grammar();
            let super_class = self.parse_left_hand_side_expr()?;
            self.set_isolate_cover_grammar_state(prev_bind, prev_assign, prev_first)?;
            Some(Box::new(super_class))
        } else {
            None
        };
        let id = if opt_ident && !self.look_ahead.is_ident() {
            None
        } else {
            Some(self.parse_var_ident(false)?)
        };
        super_class = if super_class.is_none() && self.at_contextual_keyword("extends") {
            let _ = self.next_item()?;
            let (prev_bind, prev_assign, prev_first) = self.isolate_cover_grammar();
            let super_class = self.parse_left_hand_side_expr()?;
            self.set_isolate_cover_grammar_state(prev_bind, prev_assign, prev_first)?;
            Some(Box::new(super_class))
        } else {
            None
        };
        let body = self.parse_class_body()?;
        self.set_flag(Flag::Strict, prev_strict);
        Ok(Class { id, super_class, body })
    }

    /// The elements of a class between braces; at most one constructor.
    #[verifier::spinoff_prover]
    pub(crate) fn parse_class_body(&mut self) -> (r: Res<Vec<Property>>)
        requires
            old(self).inv(),
        ensures
            final(self).moved(*old(self), r is Ok),
            r matches Ok(v) ==> forall|i: int, j: int|
                0 <= i < j < v.len() ==> !(v@[i].kind == PropertyKind::Ctor && v@[j].kind
                    == PropertyKind::Ctor),
        decreases old(self).rank(), 1nat,
    {
        let mut ret: Vec<Property> = Vec::new();
        let mut has_ctor = false;
        self.expect_punct(Punct::OpenBrace)?;
        while !self.at_punct(Punct::CloseBrace)
            invariant
                self.advanced(*old(self)),
                has_ctor == exists|i: int| 0 <= i < ret.len() && ret@[i].kind == PropertyKind::Ctor,
                forall|i: int, j: int|
                    0 <= i < j < ret.len() ==> !(ret@[i].kind == PropertyKind::Ctor && ret@[j].kind
                        == PropertyKind::Ctor),
            decreases self.rank(),
        {
            if self.at_punct(Punct::SemiColon) {
                let _ = self.next_item()?;
            } else {
                let (ctor, el) = self.parse_class_el(has_ctor)?;
                has_ctor = ctor;
                let ghost before = ret@;
                ret.push(el);
                proof {
                    assert(forall|i: int| 0 <= i < before.len() ==> ret@[i] == before[i]);
                    assert(ret@[before.len() as int] == el);
                }
            }
        }
        self.expect_punct(Punct::CloseBrace)?;
        Ok(ret)
    }

    /// One element of a class: a method, getter, setter or the
    /// constructor; the flag tells whether a constructor has been seen,
    /// this one included.
    #[verifier::spinoff_prover]
    pub(crate) fn parse_class_el(&mut self, has_ctor: bool) -> (r: Res<(bool, Property)>)
        requires
            old(self).inv(),
        ensures
            final(self).moved(*old(self), r is Ok),
            r matches Ok((c, p)) ==> (c == (has_ctor || p.kind == PropertyKind::Ctor)) && !(has_ctor
                && p.kind == PropertyKind::Ctor) && p.kind != PropertyKind::Init,
            has_ctor && old(self).look_ahead.kind is Ident && old(self).look_ahead.text@
                == "constructor"@ ==> r is Err,
            old(self).plain_method_ahead() && !(has_ctor && old(self).look_ahead.text@
                == "constructor"@) ==> (r matches Ok((c, p)) && p.key == PropertyKey::Expr(
                Expr::Ident(old(self).look_ahead.text),
            ) && p.kind == (if old(self).look_ahead.text@ == "constructor"@ {
                PropertyKind::Ctor
            } else {
                PropertyKind::Method
            }) && p.method && !p.computed && !p.short_hand && (p.value matches PropertyValue::Expr(
                Expr::Function(f),
            ) && f.id is None && f.params@.len() == 0 && f.body@.len() == 0 && !f.is_async
                && !f.generator)),
        decreases old(self).rank(), 2nat,
    {
        proof {
            reveal_strlit("constructor");
            reveal_strlit("static");
            reveal_strlit("async");
            reveal_strlit("get");
            reveal_strlit("set");
            assert("constructor"@.len() == 11);
            assert("constructor"@ != "async"@);
            assert("constructor"@ != "static"@);
            assert("constructor"@ != "get"@);
            assert("constructor"@ != "set"@);
        }
        let ghost s0 = *self;
        let ghost ctor_again = has_ctor && s0.look_ahead.kind is Ident && s0.look_ahead.text@
            == "constructor"@;
        let ghost plain = s0.plain_method_ahead();
        let mut token = self.look_ahead.copy();
        let mut has_ctor = has_ctor;
        let ghost had_ctor = has_ctor;
        let mut key: Option<PropertyKey> = None;
        let mut value: Option<PropertyValue> = None;
        let mut computed = false;
        let mut is_static = false;
        let mut is_async = false;
        if self.at_contextual_keyword("async") {
            let _async = self.next_item()?;
            is_async = true;
        }
        if self.at_punct(Punct::Asterisk) {
            let _ = self.next_item()?;
        } else {
            computed = self.at_punct(Punct::OpenBracket);
            let ghost before_key = *self;
            let new_key = self.parse_object_property_key()?;
            assert(ctor_again ==> before_key.look_ahead == s0.look_ahead);
            assert(ctor_again ==> !computed);
            assert(ctor_again ==> new_key == PropertyKey::Expr(Expr::Ident(s0.look_ahead.text)));
            proof {
                if plain {
                    let s1 = *self;
                    assert(s0.can_read(4 + 1));
                    assert(s1.ahead(0) == s0.ahead(0 + 1));
                    assert(s1.ahead(1) == s0.ahead(1 + 1));
                    assert(s1.ahead(2) == s0.ahead(2 + 1));
                    assert(s1.empty_method_rest_ahead());
                    assert(new_key == PropertyKey::Expr(Expr::Ident(s0.look_ahead.text)));
                }
            }
            if Self::is_static(&new_key) && (Self::qualified_prop_name(&self.look_ahead)
                || self.at_punct(Punct::Asterisk)) {
                token = self.look_ahead.copy();
                computed = self.at_punct(Punct::OpenBracket);
                is_static = true;
                if self.at_punct(Punct::Asterisk) {
                    let _ = self.next_item()?;
                } else {
                    key = Some(self.parse_object_property_key()?);
                }
            } else {
                key = Some(new_key);
            }
            if token.is_ident() && !self.has_line_term && self.at_contextual_keyword("async") {
                if !self.look_ahead.matches_punct(Punct::Colon) && !self.look_ahead.matches_punct(
                    Punct::OpenParen,
                ) && !self.look_ahead.matches_punct(Punct::Asterisk) {
                    return self.expected_token_error(&self.look_ahead, &[":", "(", "*"]);
                }
            }
        }
        let mut kind: Option<PropertyKind> = None;
        let mut method = false;
        let look_ahead_prop_key = Self::qualified_prop_name(&self.look_ahead);
        if token.is_ident() {
            let (at_get, at_set) = match &key {
                Some(k) => (
                    Self::is_key(k, "get") && look_ahead_prop_key,
                    Self::is_key(k, "set") && look_ahead_prop_key,
                ),
                None => (false, false),
            };
            if at_get {
                kind = Some(PropertyKind::Get);
                computed = self.at_punct(Punct::OpenBracket);
                self.set_flag(Flag::AllowYield, false);
                key = Some(self.parse_object_property_key()?);
                value = Some(self.parse_getter_method()?);
            } else if at_set {
                kind = Some(PropertyKind::Setter);
                computed = self.at_punct(Punct::OpenBracket);
                key = Some(self.parse_object_property_key()?);
                value = Some(self.parse_setter_method()?);
            }
        } else if token.matches_punct(Punct::Asterisk) && look_ahead_prop_key {
            kind = Some(PropertyKind::Init);
            computed = self.at_punct(Punct::OpenBracket);
            key = Some(self.parse_object_property_key()?);
            value = Some(self.parse_generator_method()?);
            method = true;
        }
        if kind.is_none() && key.is_some() && self.at_punct(Punct::OpenParen) {
            kind = Some(PropertyKind::Init);
            method = true;
            value = Some(
                if is_async {
                    self.parse_async_property_method()?
                } else {
                    self.parse_property_method()?
                },
            );
        }
        let mut kind = match kind {
            Some(k) => k,
            None => {
                return self.expected_token_error(&self.look_ahead, &["method identifier"]);
            },
        };
        if kind == PropertyKind::Init {
            kind = PropertyKind::Method;
        }
        let key = match key {
            Some(k) => k,
            None => {
                return self.expected_token_error(&self.look_ahead, &[]);
            },
        };
        if !computed {
            if is_static && Self::is_key(&key, "prototype") {
                return self.expected_token_error(&self.look_ahead, &[]);
            }
            if !is_static && Self::is_key(&key, "constructor") {
                if kind != PropertyKind::Method || !method {
                    return self.expected_token_error(
                        &self.look_ahead,
                        &["[constructor declaration]"],
                    );
                }
                if let Some(v) = &value {
                    if Self::is_generator(v) {
                        return self.expected_token_error(
                            &self.look_ahead,
                            &["[non-generator function declaration]"],
                        );
                    }
                }
                if has_ctor {
                    return self.expected_token_error(&self.look_ahead, &[]);
                } else {
                    has_ctor = true;
                }
                kind = PropertyKind::Ctor;
            }
        }
        let value = match value {
            Some(v) => v,
            None => {
                return self.expected_token_error(&self.look_ahead, &[]);
            },
        };
        Ok((has_ctor, Property { key, value, kind, method, computed, short_hand: false }))
    }

    #[verifier::spinoff_prover]
    pub(crate) fn parse_async_property_method(&mut self) -> (r: Res<PropertyValue>)
        requires
            old(self).inv(),
        ensures
            final(self).moved(*old(self), r is Ok),
            r matches Ok(v) ==> v matches PropertyValue::Expr(Expr::Function(f)) && f.is_async
                && !f.generator && f.id is None,
        decreases old(self).rank(), 2nat,
    {
        let prev_yield = self.context.allow_yield;
        let prev_await = self.context.allow_await;
        self.set_flag(Flag::AllowYield, false);
        self.set_flag(Flag::AllowAwait, true);
        let params = self.parse_formal_params()?;
        let body = self.parse_property_method_body(params.simple, params.found_restricted)?;
        self.set_flag(Flag::AllowYield, prev_yield);
        self.set_flag(Flag::AllowAwait, prev_await);
        Ok(
            PropertyValue::Expr(
                Expr::Function(
                    Function { id: None, params: params.params, is_async: true, generator: false, body },
                ),
            ),
        )
    }

    #[verifier::spinoff_prover]
    pub(crate) fn parse_property_method(&mut self) -> (r: Res<PropertyValue>)
        requires
            old(self).inv(),
        ensures
            final(self).moved(*old(self), r is Ok),
            old(self).empty_method_rest_ahead() ==> (r matches Ok(PropertyValue::Expr(Expr::Function(f)))
                && f.id is None && f.params@.len() == 0 && f.body@.len() == 0 && !f.is_async
                && !f.generator && Self::reads_from(*old(self), *final(self), 4) && final(self).look_ahead
                == old(self).ahead(3)),
        decreases old(self).rank(), 2nat,
    {
        let prev_yield = self.context.allow_yield;
        self.set_flag(Flag::AllowYield, false);
        let ghost m0 = *self;
        let params = self.parse_formal_params()?;
        let ghost m1 = *self;
        proof {
            if old(self).empty_method_rest_ahead() {
                assert(m0.empty_params_ahead());
                assert(m0.can_read(2 + 2));
                assert(m1.ahead(0) == m0.ahead(0 + 2));
                assert(m1.empty_block_ahead());
            }
        }
        let body = self.parse_property_method_body(params.simple, params.found_restricted)?;
        let ghost m2 = *self;
        self.set_flag(Flag::AllowYield, prev_yield);
        proof {
            if old(self).empty_method_rest_ahead() {
                Self::lemma_reads_same(*old(self), m0);
                Self::lemma_reads_same(m2, *self);
                Self::lemma_reads_compose(*old(self), m0, m1, 0, 2);
                Self::lemma_reads_compose(*old(self), m1, m2, 2, 2);
                Self::lemma_reads_compose(*old(self), m2, *self, 4, 0);
                assert(m1.ahead(1) == m0.ahead(1 + 2));
            }
        }
        Ok(
            PropertyValue::Expr(
                Expr::Function(
                    Function { id: None, params: params.params, is_async: false, generator: false, body },
                ),
            ),
        )
    }

    #[verifier::spinoff_prover]
    pub(crate) fn parse_generator_method(&mut self) -> (r: Res<PropertyValue>)
        requires
            old(self).inv(),
        ensures
            final(self).moved(*old(self), r is Ok),
            r matches Ok(v) ==> v matches PropertyValue::Expr(Expr::Function(f)) && !f.is_async
                && f.generator && f.id is None,
        decreases old(self).rank(), 2nat,
    {
        let prev_yield = self.context.allow_yield;
        self.set_flag(Flag::AllowYield, true);
        let params = self.parse_formal_params()?;
        self.set_flag(Flag::AllowYield, false);
        let body = self.parse_method_body(params.simple, params.found_restricted)?;
        self.set_flag(Flag::AllowYield, prev_yield);
        Ok(
            PropertyValue::Expr(
                Expr::Function(
                    Function { id: None, params: params.params, is_async: false, generator: true, body },
                ),
            ),
        )
    }

    /// A getter: it takes no parameters, unless errors are tolerated.
    #[verifier::spinoff_prover]
    pub(crate) fn parse_getter_method(&mut self) -> (r: Res<PropertyValue>)
        requires
            old(self).inv(),
        ensures
            final(self).moved(*old(self), r is Ok),
            r matches Ok(v) ==> v matches PropertyValue::Expr(Expr::Function(f)) && !f.is_async
                && !f.generator && f.id is None && (!old(self).config.tolerant ==> f.params.len()
                == 0),
        decreases old(self).rank(), 2nat,
    {
        let is_gen = false;
        let prev_yield = self.context.allow_yield;
        let start_position = self.look_ahead_position;
        let formal_params = self.parse_formal_params()?;
        if formal_params.params.len() > 0 {
            self.tolerate_error(ParseError::InvalidGetterParams(start_position))?;
        }
        let body = self.parse_method_body(formal_params.simple, formal_params.found_restricted)?;
        self.set_flag(Flag::AllowYield, prev_yield);
        Ok(
            PropertyValue::Expr(
                Expr::Function(
                    Function {
                        id: None,
                        params: formal_params.params,
                        body,
                        generator: is_gen,
                        is_async: false,
                    },
                ),
            ),
        )
    }

    #[verifier::spinoff_prover]
    pub(crate) fn parse_method_body(&mut self, simple: bool, found_restricted: bool) -> (r: Res<
        Vec<ProgramPart>,
    >)
        requires
            old(self).inv(),
        ensures
            final(self).moved(*old(self), r is Ok),
        decreases old(self).rank(), 2nat,
    {
        self.context.is_assignment_target = false;
        self.context.is_binding_element = false;
        let prev_strict = self.context.strict;
        let prev_allow_strict = self.context.allow_strict_directive;
        self.set_flag(Flag::AllowStrictDirective, simple);
        let start = self.look_ahead.copy();
        let (prev_bind, prev_assign, prev_first) = self.isolate_cover_grammar();
        let body = self.parse_function_source_el()?;
        self.set_isolate_cover_grammar_state(prev_bind, prev_assign, prev_first)?;
        if self.context.strict && found_restricted && !self.config.tolerant {
            self.unexpected_token_error::<()>(&start, "restricted ident")?;
        }
        self.set_flag(Flag::Strict, prev_strict);
        self.set_flag(Flag::AllowStrictDirective, prev_allow_strict);
        Ok(body)
    }

    /// A setter: it takes exactly one parameter, which is no rest
    /// parameter, unless errors are tolerated.
    #[verifier::spinoff_prover]
    pub(crate) fn parse_setter_method(&mut self) -> (r: Res<PropertyValue>)
        requires
            old(self).inv(),
        ensures
            final(self).moved(*old(self), r is Ok),
            r matches Ok(v) ==> v matches PropertyValue::Expr(Expr::Function(f)) && !f.is_async
                && !f.generator && f.id is None && (!old(self).config.tolerant ==> f.params.len()
                == 1),
        decreases old(self).rank(), 2nat,
    {
        let prev_allow = self.context.allow_yield;
        self.set_flag(Flag::AllowYield, true);
        let start_position = self.look_ahead_position;
        let params = self.parse_formal_params()?;
        self.set_flag(Flag::AllowYield, prev_allow);
        if params.params.len() != 1 {
            self.tolerate_error(ParseError::InvalidSetterParams(start_position))?;
        } else if Self::is_rest(&params.params[0]) {
            self.tolerate_error(ParseError::InvalidSetterParams(start_position))?;
        }
        let body = self.parse_property_method_body(params.simple, params.found_restricted)?;
        Ok(
            PropertyValue::Expr(
                Expr::Function(
                    Function { id: None, params: params.params, body, generator: false, is_async: false },
                ),
            ),
        )
    }

    #[verifier::spinoff_prover]
    pub(crate) fn parse_property_method_body(&mut self, simple: bool, found_restricted: bool) -> (r:
        Res<FunctionBody>)
        requires
            old(self).inv(),
        ensures
            final(self).moved(*old(self), r is Ok),
            old(self).empty_block_ahead() && !found_restricted ==> (r matches Ok(v) && v@.len() == 0
                && Self::reads_from(*old(self), *final(self), 2) && final(self).look_ahead == old(
                self,
            ).ahead(1)),
        decreases old(self).rank(), 2nat,
    {
        self.context.is_assignment_target = false;
        self.context.is_binding_element = false;
        let prev_strict = self.context.strict;
        let prev_allow = self.context.allow_strict_directive;
        self.set_flag(Flag::AllowStrictDirective, simple);
        let start_pos = self.look_ahead_position;
        let (prev_bind, prev_assign, prev_first) = self.inherit_cover_grammar();
        let ghost m0 = *self;
        let ret = self.parse_function_source_el()?;
        let ghost m1 = *self;
        self.set_inherit_cover_grammar_state(prev_bind, prev_assign, prev_first);
        if self.context.strict && found_restricted {
            self.tolerate_error(
                ParseError::NonStrictFeatureInStrictContext(
                    start_pos,
                    String::from_str("restriced ident"),
                ),
            )?;
        }
        self.set_flag(Flag::Strict, prev_strict);
        self.set_flag(Flag::AllowStrictDirective, prev_allow);
        proof {
            if old(self).empty_block_ahead() && !found_restricted {
                Self::lemma_reads_same(*old(self), m0);
                Self::lemma_reads_same(m1, *self);
                Self::lemma_reads_compose(*old(self), m0, m1, 0, 2);
                Self::lemma_reads_compose(*old(self), m1, *self, 2, 0);
            }
        }
        Ok(ret)
    }
}

} // verus!

//! Patterns, formal parameters, and expressions read back as patterns.
use vstd::prelude::*;
use crate::ast::{
    ArrayPatPart, AssignmentLeft, AssignmentPat, Expr, FunctionArg, ObjectPatPart, ObjectProperty,
    Pat, Property, PropertyKey, PropertyKind, PropertyValue, VariableKind,
};
use crate::error::ParseError;
use crate::parser::{next_real, CommentHandler, Flag, Parser, Res};
use crate::tokens::{str_eq, Keyword, Punct};

verus! {

/// The parameters of a function, with what the grammar learns of them.
pub struct FormalParams {
    /// every parameter is a plain name
    pub simple: bool,
    pub params: Vec<FunctionArg>,
    pub strict: bool,
    /// a parameter binds `eval` or `arguments`
    pub found_restricted: bool,
}

impl<'a, CH: CommentHandler> Parser<'a, CH> {
    #[verifier::spinoff_prover]
    pub(crate) fn parse_formal_params(&mut self) -> (r: Res<FormalParams>)
        requires
            old(self).inv(),
        ensures
            final(self).moved(*old(self), r is Ok),
            r is Ok ==> old(self).look_ahead.spec_is_punct(Punct::OpenParen),
            r matches Ok(f) ==> !f.strict && (f.simple ==> forall|k: int|
                0 <= k < f.params.len() ==> (#[trigger] f.params@[k]) matches FunctionArg::Pat(
                    Pat::Identifier(_),
                )),
            old(self).empty_params_ahead() ==> (r matches Ok(f) && f.params@.len() == 0 && f.simple
                && !f.found_restricted && Self::reads_from(*old(self), *final(self), 2)
                && final(self).look_ahead == old(self).ahead(1)),
        decreases old(self).rank(), 1nat,
    {
        let ghost s0 = *self;
        let ghost empty = s0.empty_params_ahead();
        proof {
            if empty {
                s0.lemma_can_read_advance(1);
            }
        }
        self.expect_punct(Punct::OpenParen)?;
        let ghost s1 = *self;
        proof {
            if empty {
                Self::lemma_read_one(s0, s1);
                assert(s0.can_read(1 + 1));
                s1.lemma_can_read_advance(0);
            }
        }
        let mut args: Vec<FunctionArg> = Vec::new();
        let mut simple: bool = true;
        let mut found_restricted = false;
        if !self.at_punct(Punct::CloseParen) {
            while !self.look_ahead.is_eof()
                invariant
                    self.advanced(*old(self)),
                    !old(self).empty_params_ahead(),
                    simple ==> forall|k: int|
                        0 <= k < args.len() ==> (#[trigger] args@[k]) matches FunctionArg::Pat(
                            Pat::Identifier(_),
                        ),
                decreases self.rank(),
            {
                let (s, r, arg) = self.parse_formal_param(simple)?;
                simple = simple && s;
                found_restricted = found_restricted || r;
                args.push(arg);
                if self.at_punct(Punct::CloseParen) {
                    break;
                }
                self.expect_punct(Punct::Comma)?;
                if self.at_punct(Punct::CloseParen) {
                    break;
                }
            }
        }
        self.expect_punct(Punct::CloseParen)?;
        proof {
            if empty {
                Self::lemma_read_one(s1, *self);
                Self::lemma_reads_compose(s0, s1, *self, 1, 1);
                assert(s1.ahead(0) == s0.ahead(0 + 1));
            }
        }
        Ok(FormalParams { params: args, strict: false, found_restricted, simple })
    }

    #[verifier::spinoff_prover]
    pub(crate) fn parse_formal_param(&mut self, simple: bool) -> (r: Res<(bool, bool, FunctionArg)>)
        requires
            old(self).inv(),
        ensures
            final(self).moved(*old(self), r is Ok),
            r matches Ok((s, _, arg)) ==> (s == (simple && arg matches FunctionArg::Pat(
                Pat::Identifier(_),
            ))),
            !old(self).look_ahead.spec_is_punct(Punct::Ellipsis) && old(self).plain_name_ahead(None)
                ==> (r matches Ok((s, _, arg)) && arg == FunctionArg::Pat(
                Pat::Identifier(old(self).look_ahead.text),
            ) && s == simple && final(self).look_ahead == old(self).next_token()),
        decreases old(self).rank(), 4nat,
    {
        let (found_restricted, param) = if self.at_punct(Punct::Ellipsis) {
            let (found_restricted, pat) = self.parse_rest_element()?;
            (found_restricted, FunctionArg::Pat(pat))
        } else {
            let (found_restricted, pat) = self.parse_pattern_with_default()?;
            (found_restricted, FunctionArg::Pat(pat))
        };
        let simple = simple && Self::is_simple(&param);
        Ok((simple, found_restricted, param))
    }

    #[verifier::spinoff_prover]
    pub(crate) fn parse_rest_element(&mut self) -> (r: Res<(bool, Pat)>)
        requires
            old(self).inv(),
        ensures
            final(self).moved(*old(self), r is Ok),
            r matches Ok((_, p)) ==> p is RestElement,
            old(self).rest_name_ahead() && old(self).ahead(1).spec_is_punct(Punct::CloseParen) ==> (r matches Ok(
                (_, p),
            ) && p == Pat::RestElement(Box::new(Pat::Identifier(old(self).ahead(0).text)))),
        decreases old(self).rank(), 1nat,
    {
        let ghost s0 = *self;
        proof {
            if s0.rest_name_ahead() {
                s0.lemma_can_read_advance(1);
            }
        }
        self.expect_punct(Punct::Ellipsis)?;
        let ghost s1 = *self;
        proof {
            if s0.rest_name_ahead() {
                Self::lemma_read_step(s0, s1, 1);
                s1.lemma_can_read_advance(0);
                reveal(Parser::reads_next);
            }
        }
        let (restricted, arg) = self.parse_pattern(None)?;
        let ret = Pat::RestElement(Box::new(arg));
        if self.at_punct(Punct::Equal) {
            return self.expected_token_error(&self.look_ahead, &["not assignment"]);
        }
        if !self.at_punct(Punct::CloseParen) {
            return self.expected_token_error(&self.look_ahead, &[")"]);
        }
        Ok((restricted, ret))
    }

    #[verifier::spinoff_prover]
    pub(crate) fn parse_binding_rest_el(&mut self) -> (r: Res<(bool, Pat)>)
        requires
            old(self).inv(),
        ensures
            final(self).moved(*old(self), r is Ok),
            old(self).rest_name_ahead() ==> (r matches Ok((_, p)) && p == Pat::Identifier(
                old(self).ahead(0).text,
            )),
        decreases old(self).rank(), 1nat,
    {
        let ghost s0 = *self;
        proof {
            if s0.rest_name_ahead() {
                s0.lemma_can_read_advance(1);
            }
        }
        self.expect_punct(Punct::Ellipsis)?;
        let ghost s1 = *self;
        proof {
            if s0.rest_name_ahead() {
                Self::lemma_read_step(s0, s1, 1);
                s1.lemma_can_read_advance(0);
                reveal(Parser::reads_next);
            }
        }
        self.parse_pattern(None)
    }

    #[verifier::spinoff_prover]
    pub(crate) fn parse_pattern_with_default(&mut self) -> (r: Res<(bool, Pat)>)
        requires
            old(self).inv(),
        ensures
            final(self).moved(*old(self), r is Ok),
            old(self).plain_name_ahead(None) ==> (r matches Ok((_, p)) && p == Pat::Identifier(
                old(self).look_ahead.text,
            ) && final(self).look_ahead == old(self).next_token() && final(self).context == old(
                self,
            ).context),
            old(self).plain_name_ahead(None) && old(self).can_read(1) ==> Self::reads_from(
                *old(self),
                *final(self),
                1,
            ),
        decreases old(self).rank(), 3nat,
    {
        proof {
            if old(self).plain_name_ahead(None) {
                old(self).lemma_name_reads(None);
            }
            reveal(Parser::reads_next);
        }
        let (is_restricted, ret) = self.parse_pattern(None)?;
        proof {
            if old(self).plain_name_ahead(None) && old(self).can_read(1) {
                Self::lemma_read_one(*old(self), *self);
            }
        }
        if self.at_punct(Punct::Equal) {
            let _assign = self.next_item()?;
            let prev_yield = self.context.allow_yield;
            self.set_flag(Flag::AllowYield, true);
            let (prev_bind, prev_assign, prev_first) = self.isolate_cover_grammar();
            let right = self.parse_assignment_expr()?;
            self.set_isolate_cover_grammar_state(prev_bind, prev_assign, prev_first)?;
            self.set_flag(Flag::AllowYield, prev_yield);
            return Ok(
                (
                    is_restricted,
                    Pat::Assignment(AssignmentPat { left: Box::new(ret), right: Box::new(right) }),
                ),
            );
        }
        Ok((is_restricted, ret))
    }

    /// The look-ahead starts a pattern that is a plain name: no `[` and no
    /// `{`.
    pub(crate) open spec fn at_name_pattern(&self) -> bool {
        !self.look_ahead.spec_is_punct(Punct::OpenBracket) && !self.look_ahead.spec_is_punct(
            Punct::OpenBrace,
        )
    }

    /// The look-ahead can be read as the name of a binding of kind `kind`:
    /// a read succeeds, and the name may stand there (a `let` or `const`
    /// binding may not be named `let`).
    pub(crate) open spec fn name_pattern_ok(&self, kind: Option<VariableKind>) -> bool {
        let lexical = kind == Some(VariableKind::Let) || kind == Some(VariableKind::Const);
        &&& self.can_advance()
        &&& !(lexical && self.look_ahead.spec_is_keyword(Keyword::Let))
        &&& self.var_ident_ok(!lexical)
    }

    /// `...` and then a plain name stand ahead, and the two reads over them
    /// succeed.
    pub(crate) open spec fn rest_name_ahead(&self) -> bool {
        &&& self.look_ahead.spec_is_punct(Punct::Ellipsis)
        &&& self.can_read(2)
        &&& !self.ahead(0).spec_is_punct(Punct::OpenBracket)
        &&& !self.ahead(0).spec_is_punct(Punct::OpenBrace)
        &&& crate::parser::primary::ident_ok(self.context, self.config.is_module, self.ahead(0), true)
    }

    /// A plain name of a binding of kind `kind` stands at the look-ahead, and
    /// no `=` follows it.
    pub(crate) open spec fn plain_name_ahead(&self, kind: Option<VariableKind>) -> bool {
        &&& self.at_name_pattern()
        &&& self.name_pattern_ok(kind)
        &&& !self.next_token().spec_is_punct(Punct::Equal)
    }

    /// Where a name can be read, the scanner still hands tokens out and a
    /// token that is no comment is left to read.
    pub(crate) proof fn lemma_name_reads(&self, kind: Option<VariableKind>)
        requires
            self.name_pattern_ok(kind),
        ensures
            self.live(),
            next_real(self.input.stream@, self.cursor as int) < self.input.stream.len(),
    {
        self.lemma_advance_reads();
    }

    /// A binding pattern: an array pattern at `[`, an object pattern at
    /// `{`, else a name, which for `let` and `const` may not be `let`.  The
    /// flag tells whether the name is `eval` or `arguments`.
    #[verifier::spinoff_prover]
    pub(crate) fn parse_pattern(&mut self, kind: Option<VariableKind>) -> (r: Res<(bool, Pat)>)
        requires
            old(self).inv(),
        ensures
            final(self).moved(*old(self), r is Ok),
            r matches Ok((restricted, p)) ==> (old(self).look_ahead.spec_is_punct(Punct::OpenBracket)
                ==> p is Array) && (old(self).look_ahead.spec_is_punct(Punct::OpenBrace)
                ==> p is Object) && (!old(self).look_ahead.spec_is_punct(Punct::OpenBracket)
                && !old(self).look_ahead.spec_is_punct(Punct::OpenBrace) ==> p == Pat::Identifier(
                old(self).look_ahead.text,
            ) && restricted == (old(self).look_ahead.text@ == "eval"@ || old(
                self,
            ).look_ahead.text@ == "arguments"@)),
            old(self).at_name_pattern() ==> (r is Ok <==> old(self).name_pattern_ok(kind)),
            old(self).at_name_pattern() && r is Ok ==> Self::reads_next(*old(self), *final(self))
                && final(self).context == old(self).context,
        decreases old(self).rank(), 2nat,
    {
        if self.at_punct(Punct::OpenBracket) {
            self.parse_array_pattern()
        } else if self.at_punct(Punct::OpenBrace) {
            self.parse_object_pattern()
        } else {
            let is_var = match kind {
                Some(VariableKind::Const) | Some(VariableKind::Let) => {
                    if self.at_keyword(Keyword::Let) {
                        return self.expected_token_error(&self.look_ahead, &["identifier"]);
                    }
                    false
                },
                _ => true,
            };
            let ident = self.parse_var_ident(is_var)?;
            let restricted = str_eq(ident.as_str(), "eval") || str_eq(ident.as_str(), "arguments");
            Ok((restricted, Pat::Identifier(ident)))
        }
    }

    #[verifier::spinoff_prover]
    pub(crate) fn parse_array_pattern(&mut self) -> (r: Res<(bool, Pat)>)
        requires
            old(self).inv(),
        ensures
            final(self).moved(*old(self), r is Ok),
            r matches Ok((restricted, p)) ==> !restricted && p is Array,
            forall|n: nat|
                #[trigger] old(self).leading_holes(n) ==> (r matches Ok((_, Pat::Array(els))) ==> n
                    <= els.len() && forall|j: int| 0 <= j < n ==> (#[trigger] els@[j]) is None),
            old(self).hole_between_ahead() ==> (r matches Ok((_, Pat::Array(els))) && els@ == seq![
                Some(ArrayPatPart::Pat(Pat::Identifier(old(self).ahead(0).text))),
                None,
                Some(ArrayPatPart::Pat(Pat::Identifier(old(self).ahead(3).text))),
            ]),
        decreases old(self).rank(), 1nat,
    {
        let ghost s0 = *self;
        let ghost hb = s0.hole_between_ahead();
        let ghost ex = Some(ArrayPatPart::Pat(Pat::Identifier(s0.ahead(0).text)));
        let ghost ey = Some(ArrayPatPart::Pat(Pat::Identifier(s0.ahead(3).text)));
        proof {
            if hb {
                s0.lemma_can_read_advance(5);
            }
        }
        self.expect_punct(Punct::OpenBracket)?;
        let mut elements: Vec<Option<ArrayPatPart>> = Vec::new();
        let ghost mut lead: bool = s0.can_read(1);
        let ghost mut run: nat = 0;
        proof {
            if hb {
                s0.lemma_can_read_fewer(6, 1);
            }
            if lead {
                Self::lemma_read_one(s0, *self);
            }
            assert forall|n: nat| #[trigger] s0.leading_holes(n) implies lead || n <= run by {
                assert(s0.can_read(n + 1));
                s0.lemma_can_read_fewer(n + 1, 1);
                assert(s0.can_read(1));
            }
        }
        while !self.at_punct(Punct::CloseBracket)
            invariant
                self.advanced(*old(self)),
                s0 == *old(self),
                run <= elements.len(),
                lead ==> run == elements.len() && Self::reads_from(s0, *self, (elements.len() + 1) as nat)
                    && self.look_ahead == s0.ahead(elements.len() as nat),
                forall|j: int| 0 <= j < run ==> (#[trigger] elements@[j]) is None,
                forall|n: nat| #[trigger] s0.leading_holes(n) ==> lead || n <= run,
                hb == s0.hole_between_ahead(),
                ex == Some(ArrayPatPart::Pat(Pat::Identifier(s0.ahead(0).text))),
                ey == Some(ArrayPatPart::Pat(Pat::Identifier(s0.ahead(3).text))),
                hb ==> self.context == s0.context && self.config == s0.config && (
                (elements@ == Seq::<Option<ArrayPatPart>>::empty() && self.look_ahead == s0.ahead(0)
                    && Self::reads_from(s0, *self, 1)) || (elements@ == seq![ex]
                    && self.look_ahead == s0.ahead(2) && Self::reads_from(s0, *self, 3)) || (elements@
                    == seq![ex, None] && self.look_ahead == s0.ahead(3) && Self::reads_from(s0, *self, 4))
                    || (elements@ == seq![ex, None, ey] && self.look_ahead == s0.ahead(4)
                    && Self::reads_from(s0, *self, 5))),
            ensures
                self.advanced(*old(self)),
                s0 == *old(self),
                run <= elements.len(),
                lead ==> run == elements.len() && self.look_ahead == s0.ahead(elements.len() as nat)
                    && self.look_ahead.spec_is_punct(Punct::CloseBracket),
                forall|j: int| 0 <= j < run ==> (#[trigger] elements@[j]) is None,
                forall|n: nat| #[trigger] s0.leading_holes(n) ==> lead || n <= run,
                hb ==> elements@ == seq![ex, None, ey] && Self::reads_from(s0, *self, 5),
            decreases self.rank(),
        {
            let ghost before = elements@;
            if self.at_punct(Punct::Comma) {
                let ghost c0 = *self;
                let ghost more = lead && c0.can_read(1);
                proof {
                    if hb {
                        assert(s0.can_read(3 + 3));
                        c0.lemma_can_read_advance(2);
                    }
                }
                let _ = self.next_item()?;
                elements.push(None);
                proof {
                    if hb {
                        Self::lemma_read_one(c0, *self);
                        Self::lemma_reads_compose(s0, c0, *self, 3, 1);
                        assert(c0.ahead(0) == s0.ahead(0 + 3));
                        assert(elements@ == seq![ex, None]);
                    }
                    assert forall|j: int| 0 <= j < before.len() implies elements@[j] == before[j] by {}
                    if more {
                        Self::lemma_read_one(c0, *self);
                        Self::lemma_reads_compose(s0, c0, *self, (before.len() + 1) as nat, 1);
                        assert(c0.ahead(0) == s0.ahead(0 + (before.len() + 1) as nat));
                        assert((before.len() + 1) as nat + 1 == (elements.len() + 1) as nat);
                    }
                    assert forall|n: nat| #[trigger] s0.leading_holes(n) implies more || n <= (if more {
                        run + 1
                    } else {
                        run
                    }) by {
                        if lead && n > before.len() {
                            assert(s0.can_read((n - before.len()) as nat + (before.len() + 1) as nat));
                            c0.lemma_can_read_fewer((n - before.len()) as nat, 1);
                        }
                    }
                    if more {
                        run = run + 1;
                    }
                    lead = more;
                }
            } else {
                proof {
                    assert forall|n: nat| #[trigger] s0.leading_holes(n) implies n <= run by {
                        if lead && n > before.len() {
                            assert(s0.ahead(before.len() as nat).spec_is_punct(Punct::Comma));
                        }
                    }
                    lead = false;
                }
                if self.at_punct(Punct::Ellipsis) {
                    let (_, el) = self.parse_binding_rest_el()?;
                    elements.push(Some(ArrayPatPart::Pat(el)));
                    proof {
                        assert forall|j: int| 0 <= j < before.len() implies elements@[j] == before[j] by {}
                    }
                    break;
                } else {
                    let ghost p0 = *self;
                    proof {
                        if hb {
                            if before.len() == 0 {
                                assert(s0.can_read(5 + 1));
                                p0.lemma_can_read_advance(4);
                                assert(p0.ahead(0) == s0.ahead(0 + 1));
                            } else {
                                assert(s0.can_read(2 + 4));
                                p0.lemma_can_read_advance(1);
                                assert(p0.ahead(0) == s0.ahead(0 + 4));
                            }
                            assert(p0.next_token() == p0.ahead(0));
                            assert(p0.plain_name_ahead(None));
                        }
                    }
                    let (_, el) = self.parse_pattern_with_default()?;
                    elements.push(Some(ArrayPatPart::Pat(el)));
                    proof {
                        assert forall|j: int| 0 <= j < before.len() implies elements@[j] == before[j] by {}
                        if hb {
                            if before.len() == 0 {
                                Self::lemma_reads_compose(s0, p0, *self, 1, 1);
                                assert(s0.can_read(4 + 2));
                                self.lemma_can_read_advance(3);
                                assert(elements@ == seq![ex]);
                            } else {
                                Self::lemma_reads_compose(s0, p0, *self, 4, 1);
                                assert(elements@ == seq![ex, None, ey]);
                            }
                        }
                    }
                }
                let ghost e0 = *self;
                if !self.at_punct(Punct::CloseBracket) {
                    self.expect_punct(Punct::Comma)?;
                    proof {
                        if hb {
                            Self::lemma_read_one(e0, *self);
                            Self::lemma_reads_compose(s0, e0, *self, 2, 1);
                            assert(e0.ahead(0) == s0.ahead(0 + 2));
                        }
                    }
                }
            }
        }
        proof {
            assert forall|n: nat| #[trigger] s0.leading_holes(n) implies n <= run by {
                if lead && n > elements.len() {
                    assert(s0.ahead(elements.len() as nat).spec_is_punct(Punct::Comma));
                }
            }
            if hb {
                assert(s0.can_read(1 + 5));
                self.lemma_can_read_advance(0);
            }
        }
        self.expect_punct(Punct::CloseBracket)?;
        Ok((false, Pat::Array(elements)))
    }

    #[verifier::spinoff_prover]
    pub(crate) fn parse_object_pattern(&mut self) -> (r: Res<(bool, Pat)>)
        requires
            old(self).inv(),
        ensures
            final(self).moved(*old(self), r is Ok),
            r matches Ok((restricted, p)) ==> !restricted && p is Object,
        decreases old(self).rank(), 1nat,
    {
        self.expect_punct(Punct::OpenBrace)?;
        let mut body: Vec<ObjectPatPart> = Vec::new();
        while !self.at_punct(Punct::CloseBrace)
            invariant
                self.advanced(*old(self)),
            decreases self.rank(),
        {
            let el = if self.at_punct(Punct::Ellipsis) {
                self.parse_rest_prop()?
            } else {
                self.parse_property_pattern()?
            };
            body.push(el);
            if !self.at_punct(Punct::CloseBrace) {
                self.expect_punct(Punct::Comma)?;
            }
        }
        self.expect_punct(Punct::CloseBrace)?;
        Ok((false, Pat::Object(body)))
    }

    #[verifier::spinoff_prover]
    pub(crate) fn parse_rest_prop(&mut self) -> (r: Res<ObjectPatPart>)
        requires
            old(self).inv(),
        ensures
            final(self).moved(*old(self), r is Ok),
            old(self).rest_name_ahead() ==> r == Ok::<ObjectPatPart, ParseError>(
                ObjectPatPart::Rest(Box::new(Pat::RestElement(Box::new(Pat::Identifier(
                    old(self).ahead(0).text,
                ))))),
            ),
        decreases old(self).rank(), 1nat,
    {
        let ghost s0 = *self;
        proof {
            if s0.rest_name_ahead() {
                s0.lemma_can_read_advance(1);
            }
        }
        self.expect_punct(Punct::Ellipsis)?;
        let ghost s1 = *self;
        proof {
            if s0.rest_name_ahead() {
                Self::lemma_read_step(s0, s1, 1);
                s1.lemma_can_read_advance(0);
                reveal(Parser::reads_next);
            }
        }
        let (_, arg) = self.parse_pattern(None)?;
        let rest = Pat::RestElement(Box::new(arg));
        Ok(ObjectPatPart::Rest(Box::new(rest)))
    }

    #[verifier::spinoff_prover]
    pub(crate) fn parse_property_pattern(&mut self) -> (r: Res<ObjectPatPart>)
        requires
            old(self).inv(),
        ensures
            final(self).moved(*old(self), r is Ok),
        decreases old(self).rank(), 2nat,
    {
        let mut computed = false;
        let mut short_hand = false;
        let method = false;
        let (key, value) = if self.look_ahead.is_ident() {
            let key = PropertyKey::Expr(Expr::Ident(self.parse_var_ident(false)?));
            let value = if self.at_punct(Punct::Equal) {
                self.expect_punct(Punct::Equal)?;
                short_hand = true;
                let e = self.parse_assignment_expr()?;
                PropertyValue::Expr(e)
            } else if !self.at_punct(Punct::Colon) {
                short_hand = true;
                PropertyValue::NoValue
            } else {
                self.expect_punct(Punct::Colon)?;
                let (_, p) = self.parse_pattern_with_default()?;
                PropertyValue::Pat(p)
            };
            (key, value)
        } else {
            computed = self.at_punct(Punct::OpenBracket);
            let key = self.parse_object_property_key()?;
            self.expect_punct(Punct::Colon)?;
            let (_, v) = self.parse_pattern_with_default()?;
            (key, PropertyValue::Pat(v))
        };
        Ok(
            ObjectPatPart::Assignment(
                Property { key, value, computed, short_hand, method, kind: PropertyKind::Init },
            ),
        )
    }

    /// Read an expression as a pattern: an array, spread, object,
    /// assignment or identifier reads as the pattern of the same shape;
    /// any other expression cannot.
    pub(crate) fn reinterpret_expr_as_pat(&self, ex: Expr) -> (r: Res<Pat>)
        ensures
            r matches Ok(p) ==> (ex is Array <==> p is Array) && (ex is Spread <==> p is RestElement)
                && (ex is Object <==> p is Object) && (ex is Assignment <==> p is Assignment) && (
            ex is Ident <==> p is Identifier),
            !(ex is Array || ex is Spread || ex is Object || ex is Assignment || ex is Ident)
                ==> r is Err,
            ex matches Expr::Ident(i) ==> r == Ok::<Pat, crate::error::ParseError>(Pat::Identifier(i)),
        decreases ex,
    {
        let ghost g = ex;
        match ex {
            Expr::Array(a) => {
                let mut parts: Vec<Option<ArrayPatPart>> = Vec::new();
                let mut rest = a;
                rest = crate::parser::reversed(rest);
                while rest.len() > 0
                    invariant
                        true,
                    decreases rest.len(),
                {
                    match rest.pop() {
                        Some(Some(e)) => parts.push(Some(ArrayPatPart::Expr(e))),
                        Some(None) => parts.push(None),
                        None => {},
                    }
                }
                Ok(Pat::Array(parts))
            },
            Expr::Spread(s) => {
                let inner = self.reinterpret_expr_as_pat(*s)?;
                Ok(Pat::RestElement(Box::new(inner)))
            },
            Expr::Object(o) => {
                let mut patts: Vec<ObjectPatPart> = Vec::new();
                let mut rest = o;
                let ghost ov = rest@;
                proof {
                    assert forall|k: int| 0 <= k < ov.len() implies decreases_to!(g => ov[k]) by {
                        vstd::std_specs::vec::axiom_vec_index_decreases(rest, k);
                    }
                }
                rest = crate::parser::reversed(rest);
                proof {
                    assert forall|k: int| 0 <= k < rest@.len() implies decreases_to!(g => rest@[k]) by {
                        assert(rest@[k] == ov[ov.len() - 1 - k]);
                    }
                }
                while rest.len() > 0
                    invariant
                        g == ex,
                        g is Object,
                        forall|k: int| 0 <= k < rest@.len() ==> decreases_to!(g => #[trigger] rest@[k]),
                    decreases rest.len(),
                {
                    let ghost before = rest@;
                    let item = match rest.pop() {
                        Some(item) => item,
                        None => {
                            break;
                        },
                    };
                    let ghost it = item;
                    proof {
                        assert(item == before[before.len() - 1]);
                        assert(decreases_to!(g => before[before.len() - 1]));
                        assert(forall|k: int| 0 <= k < rest@.len() ==> rest@[k] == before[k]);
                    }
                    match item {
                        ObjectProperty::Property(p) => patts.push(ObjectPatPart::Assignment(p)),
                        ObjectProperty::Spread(s) => {
                            proof {
                                assert(decreases_to!(g => it));
                                assert(decreases_to!(it => *s));
                            }
                            let p = self.reinterpret_expr_as_pat(*s)?;
                            patts.push(ObjectPatPart::Rest(Box::new(p)));
                        },
                    }
                }
                Ok(Pat::Object(patts))
            },
            Expr::Assignment(a) => {
                let left = match a.left {
                    AssignmentLeft::Pat(p) => p,
                    AssignmentLeft::Expr(e) => self.reinterpret_expr_as_pat(*e)?,
                };
                Ok(Pat::Assignment(AssignmentPat { left: Box::new(left), right: a.right }))
            },
            Expr::Ident(i) => Ok(Pat::Identifier(i)),
            _ => Err(self.reinterpret_error("expression", "pattern")),
        }
    }
}

} // verus!

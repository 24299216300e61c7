//! Primary expressions: names, literals, groups, array and object
//! initializers, templates and function expressions.
use vstd::prelude::*;
use vstd::string::StringExecFns;
use crate::ast::{
    Expr, Function, FunctionArg, Literal, ObjectProperty, Property, PropertyKey, PropertyKind,
    PropertyValue, RegEx, TemplateElement, TemplateLiteral,
};
use crate::error::ParseError;
use crate::parser::{simple_tree, CommentHandler, Context, Flag, Parser, Res};
use crate::scan::text_get;
use crate::tokens::{str_eq, Keyword, Punct, TemplatePart, TokItem, TokKind};

verus! {

/// The token `t` may be read as the name of a variable in the context `c`
/// of a module or a script: `yield` where it may be a name, another keyword
/// outside strict mode when it is no `let` and the binding is a `var`, an
/// identifier unless it is `await` in a module or an async function.
pub open spec fn ident_ok(c: Context, is_module: bool, t: TokItem, is_var: bool) -> bool {
    if t.spec_is_keyword(Keyword::Yield) {
        !c.strict && c.allow_yield
    } else if !(t.kind is Ident) {
        &&& !(c.strict && t.spec_is_strict_reserved())
        &&& !(c.strict || t.spec_is_keyword(Keyword::Let) || !is_var)
        &&& t.kind is Keyword
    } else {
        !((is_module || c.allow_await) && t.text@ == "await"@)
    }
}

impl<'a, CH: CommentHandler> Parser<'a, CH> {
    #[verifier::spinoff_prover]
    #[verifier::rlimit(100)]
    pub(crate) fn parse_primary_expression(&mut self) -> (r: Res<Expr>)
        requires
            old(self).inv(),
        ensures
            final(self).moved(*old(self), r is Ok),
            r matches Ok(e) ==> (old(self).look_ahead.kind is Null ==> e == Expr::Literal(
                Literal::Null,
            )) && (old(self).look_ahead.kind matches TokKind::Boolean(b) ==> e == Expr::Literal(
                Literal::Boolean(b),
            )) && (old(self).look_ahead.kind is Str ==> e == Expr::Literal(
                Literal::String(old(self).look_ahead.text),
            )) && (old(self).look_ahead.kind is RegEx ==> e matches Expr::Literal(Literal::RegEx(_)))
                && (old(self).look_ahead.kind is Template ==> e matches Expr::Literal(
                Literal::Template(_),
            )),
            old(self).look_ahead.kind is EoF || old(self).look_ahead.kind is Comment ==> r is Err,
            old(self).atom_ahead() ==> r == Ok::<Expr, ParseError>(simple_tree(old(self).look_ahead))
                && Self::read_once(*old(self), *final(self)),
        decreases old(self).rank(), 2nat,
    {
        proof {
            if old(self).atom_ahead() {
                old(self).lemma_advance_reads();
                assert(old(self).can_read(1));
            }
            reveal(Parser::reads_next);
        }
        if self.look_ahead.is_ident() {
            if (self.config.is_module || self.context.allow_await) && self.at_keyword(Keyword::Await) {
                if !self.config.tolerant {
                    return self.unexpected_token_error(
                        &self.look_ahead,
                        "Modules do not allow 'await' to be used as an identifier",
                    );
                }
            }
            if self.at_async_function() {
                self.parse_function_expr()
            } else {
                let ident = self.next_item()?;
                Ok(Expr::Ident(ident.text))
            }
        } else if self.look_ahead.is_number() || self.look_ahead.is_string() {
            self.context.is_assignment_target = false;
            self.context.is_binding_element = false;
            let item = self.next_item()?;
            if item.is_number() {
                let mut text = item.text;
                if self.at_big_int_flag() {
                    let start = item.span.start;
                    let end = item.span.end;
                    let _n = self.next_item();
                    text = if end < usize::MAX {
                        match text_get(self.input.source, start, end + 1) {
                            Some(s) => s.to_owned(),
                            None => String::new(),
                        }
                    } else {
                        String::new()
                    };
                }
                Ok(Expr::Literal(Literal::Number(text)))
            } else {
                Ok(Expr::Literal(Literal::String(item.text)))
            }
        } else if self.look_ahead.is_boolean() {
            self.context.is_assignment_target = false;
            self.context.is_binding_element = false;
            let item = self.next_item()?;
            let b = match item.kind {
                TokKind::Boolean(b) => b,
                _ => false,
            };
            Ok(Expr::Literal(Literal::Boolean(b)))
        } else if self.look_ahead.is_null() {
            self.context.is_assignment_target = false;
            self.context.is_binding_element = false;
            let _ = self.next_item()?;
            Ok(Expr::Literal(Literal::Null))
        } else if self.look_ahead.is_template() {
            let lit = self.parse_template_literal()?;
            Ok(Expr::Literal(Literal::Template(lit)))
        } else if self.look_ahead.is_punct() {
            let (prev_bind, prev_assign, prev_first) = self.inherit_cover_grammar();
            let expr = if self.at_punct(Punct::OpenParen) {
                self.parse_group_expr()?
            } else if self.at_punct(Punct::OpenBracket) {
                self.parse_array_init()?
            } else if self.at_punct(Punct::OpenBrace) {
                self.parse_obj_init()?
            } else {
                return self.expected_token_error(&self.look_ahead, &["{", "[", "("]);
            };
            self.set_inherit_cover_grammar_state(prev_bind, prev_assign, prev_first);
            Ok(expr)
        } else if self.look_ahead.is_regex() {
            self.context.is_assignment_target = false;
            self.context.is_binding_element = false;
            let regex = self.next_item()?;
            let lit = match regex.kind {
                TokKind::RegEx { body, flags } => {
                    let flags = match flags {
                        Some(f) => f,
                        None => String::new(),
                    };
                    RegEx { pattern: body, flags }
                },
                _ => RegEx { pattern: String::new(), flags: String::new() },
            };
            Ok(Expr::Literal(Literal::RegEx(lit)))
        } else if self.look_ahead.is_keyword() {
            if !self.context.strict && ((self.context.allow_yield && self.at_keyword(Keyword::Yield))
                || self.at_keyword(Keyword::Let)) {
                let ident = self.parse_ident_name()?;
                Ok(Expr::Ident(ident))
            } else if !self.context.strict && self.look_ahead.is_strict_reserved() {
                let ident = self.parse_ident_name()?;
                Ok(Expr::Ident(ident))
            } else {
                self.context.is_assignment_target = false;
                self.context.is_binding_element = false;
                if self.at_keyword(Keyword::Function) {
                    self.parse_function_expr()
                } else if self.at_keyword(Keyword::This) {
                    let _ = self.next_item()?;
                    Ok(Expr::This)
                } else if self.at_keyword(Keyword::Class) {
                    let cls = self.parse_class_decl(true)?;
                    Ok(Expr::Class(cls))
                } else if self.at_import_call() {
                    let ident = self.parse_ident_name()?;
                    Ok(Expr::Ident(ident))
                } else {
                    self.expected_token_error(
                        &self.look_ahead,
                        &["function", "this", "class", "import"],
                    )
                }
            }
        } else {
            self.expected_token_error(
                &self.look_ahead,
                &[
                    "[identifier]",
                    "async",
                    "[Number]",
                    "[String]",
                    "[RegEx]",
                    "yield",
                    "let",
                    "function",
                    "this",
                    "class",
                    "import",
                ],
            )
        }
    }

    /// The arguments of a group as parameters.
    fn exprs_as_args(exprs: Vec<Expr>) -> (r: Vec<FunctionArg>)
        ensures
            r.len() == exprs.len(),
    {
        let mut out: Vec<FunctionArg> = Vec::new();
        let mut rest = exprs;
        rest = crate::parser::reversed(rest);
        let ghost n = rest.len();
        while rest.len() > 0
            invariant
                out.len() + rest.len() == n,
            decreases rest.len(),
        {
            match rest.pop() {
                Some(e) => out.push(FunctionArg::Expr(e)),
                None => {},
            }
        }
        out
    }

    #[verifier::spinoff_prover]
    pub(crate) fn parse_group_expr(&mut self) -> (r: Res<Expr>)
        requires
            old(self).inv(),
        ensures
            final(self).moved(*old(self), r is Ok),
            old(self).empty_arrow_params_ahead() ==> (r matches Ok(
                Expr::ArrowParamPlaceHolder(args, false),
            ) && args@.len() == 0),
        decreases old(self).rank(), 1nat,
    {
        let ghost s0 = *self;
        proof {
            if s0.empty_arrow_params_ahead() {
                s0.lemma_can_read_advance(1);
            }
        }
        self.expect_punct(Punct::OpenParen)?;
        proof {
            if s0.empty_arrow_params_ahead() {
                let s1 = *self;
                Self::lemma_read_one(s0, s1);
                assert(s1.can_read(1)) by {
                    assert(s0.can_read(1 + 1));
                }
                s1.lemma_can_read_advance(0);
                assert(s1.ahead(0) == s0.ahead(0 + 1));
            }
        }
        let ghost s1 = *self;
        if self.at_punct(Punct::CloseParen) {
            let _ = self.next_item()?;
            proof {
                if s0.empty_arrow_params_ahead() {
                    Self::lemma_read_one(s1, *self);
                }
            }
            if !self.at_punct(Punct::EqualGreaterThan) {
                self.expect_punct(Punct::EqualGreaterThan)?;
            }
            return Ok(Expr::ArrowParamPlaceHolder(Vec::new(), false));
        }
        if self.at_punct(Punct::Ellipsis) {
            let (_, expr) = self.parse_rest_element()?;
            let arg = FunctionArg::Pat(expr);
            self.expect_punct(Punct::CloseParen)?;
            if !self.at_punct(Punct::EqualGreaterThan) {
                self.expect_punct(Punct::EqualGreaterThan)?;
            }
            return Ok(Expr::ArrowParamPlaceHolder(vec![arg], false));
        }
        self.context.is_binding_element = true;
        let (prev_bind, prev_assign, prev_first) = self.inherit_cover_grammar();
        let mut ex = self.parse_assignment_expr()?;
        self.set_inherit_cover_grammar_state(prev_bind, prev_assign, prev_first);
        if self.at_punct(Punct::Comma) {
            let mut exprs: Vec<Expr> = vec![ex];
            while !self.look_ahead.is_eof()
                invariant
                    self.advanced(*old(self)),
                    !old(self).empty_arrow_params_ahead(),
                decreases self.rank(),
            {
                if !self.at_punct(Punct::Comma) {
                    break;
                }
                let _ = self.next_item()?;
                if self.at_punct(Punct::CloseParen) {
                    let _ = self.next_item()?;
                    return Ok(Expr::ArrowParamPlaceHolder(Self::exprs_as_args(exprs), false));
                } else if self.at_punct(Punct::Ellipsis) {
                    if !self.context.is_binding_element {
                        return self.expected_token_error(&self.look_ahead, &["not ..."]);
                    }
                    let (_, rest) = self.parse_rest_element()?;
                    let mut args = Self::exprs_as_args(exprs);
                    args.push(FunctionArg::Pat(rest));
                    self.expect_punct(Punct::CloseParen)?;
                    return Ok(Expr::ArrowParamPlaceHolder(args, false));
                } else {
                    let (prev_bind, prev_assign, prev_first) = self.inherit_cover_grammar();
                    exprs.push(self.parse_assignment_expr()?);
                    self.set_inherit_cover_grammar_state(prev_bind, prev_assign, prev_first);
                }
            }
            ex = Expr::Sequence(exprs);
        }
        self.expect_punct(Punct::CloseParen)?;
        if self.at_punct(Punct::EqualGreaterThan) {
            if Self::is_ident(&ex) {
                self.context.is_binding_element = false;
                return Ok(Expr::ArrowParamPlaceHolder(vec![FunctionArg::Expr(ex)], false));
            }
            if !self.context.is_binding_element {
                return self.expected_token_error(&self.look_ahead, &["binding element"]);
            }
            return match ex {
                Expr::Sequence(seq) => Ok(Expr::ArrowParamPlaceHolder(Self::exprs_as_args(seq), false)),
                other => Ok(Expr::ArrowParamPlaceHolder(vec![FunctionArg::Expr(other)], false)),
            };
        }
        Ok(ex)
    }

    #[verifier::spinoff_prover]
    pub(crate) fn parse_array_init(&mut self) -> (r: Res<Expr>)
        requires
            old(self).inv(),
        ensures
            final(self).moved(*old(self), r is Ok),
            r matches Ok(e) ==> e is Array,
        decreases old(self).rank(), 1nat,
    {
        self.expect_punct(Punct::OpenBracket)?;
        let mut elements: Vec<Option<Expr>> = Vec::new();
        while !self.at_punct(Punct::CloseBracket)
            invariant
                self.advanced(*old(self)),
            decreases self.rank(),
        {
            if self.at_punct(Punct::Comma) {
                self.next_item()?;
                elements.push(None);
            } else if self.at_punct(Punct::Ellipsis) {
                let el = self.parse_spread_element()?;
                if !self.at_punct(Punct::CloseBracket) {
                    self.context.is_assignment_target = false;
                    self.context.is_binding_element = false;
                    self.expect_punct(Punct::Comma)?;
                }
                elements.push(Some(el));
            } else {
                let (prev_bind, prev_assign, prev_first) = self.inherit_cover_grammar();
                elements.push(Some(self.parse_assignment_expr()?));
                self.set_inherit_cover_grammar_state(prev_bind, prev_assign, prev_first);
                if !self.at_punct(Punct::CloseBracket) {
                    self.expect_punct(Punct::Comma)?;
                }
            }
        }
        self.expect_punct(Punct::CloseBracket)?;
        Ok(Expr::Array(elements))
    }

    #[verifier::spinoff_prover]
    pub(crate) fn parse_obj_init(&mut self) -> (r: Res<Expr>)
        requires
            old(self).inv(),
        ensures
            final(self).moved(*old(self), r is Ok),
            r matches Ok(e) ==> e is Object,
        decreases old(self).rank(), 1nat,
    {
        self.expect_punct(Punct::OpenBrace)?;
        let mut props: Vec<ObjectProperty> = Vec::new();
        let mut has_proto = false;
        while !self.at_punct(Punct::CloseBrace)
            invariant
                self.advanced(*old(self)),
            decreases self.rank(),
        {
            let prop = if self.at_punct(Punct::Ellipsis) {
                let spread = self.parse_spread_element()?;
                ObjectProperty::Spread(Box::new(spread))
            } else {
                let (found_proto, prop) = self.parse_obj_prop(has_proto)?;
                has_proto = has_proto || found_proto;
                prop
            };
            props.push(prop);
            if !self.at_punct(Punct::CloseBrace) {
                self.expect_comma_sep()?;
            }
        }
        self.expect_punct(Punct::CloseBrace)?;
        Ok(Expr::Object(props))
    }

    #[verifier::spinoff_prover]
    pub(crate) fn parse_obj_prop(&mut self, has_proto: bool) -> (r: Res<(bool, ObjectProperty)>)
        requires
            old(self).inv(),
        ensures
            final(self).moved(*old(self), r is Ok),
            old(self).short_prop_ahead() ==> r == Ok::<(bool, ObjectProperty), ParseError>(
                (
                    has_proto,
                    ObjectProperty::Property(
                        Property {
                            computed: false,
                            key: PropertyKey::Expr(Expr::Ident(old(self).look_ahead.text)),
                            value: PropertyValue::NoValue,
                            kind: PropertyKind::Init,
                            method: false,
                            short_hand: true,
                        },
                    ),
                ),
            ),
            old(self).colon_prop_ahead() ==> r == Ok::<(bool, ObjectProperty), ParseError>(
                (
                    has_proto,
                    ObjectProperty::Property(
                        Property {
                            computed: false,
                            key: PropertyKey::Expr(Expr::Ident(old(self).look_ahead.text)),
                            value: PropertyValue::Expr(simple_tree(old(self).ahead(1))),
                            kind: PropertyKind::Init,
                            method: false,
                            short_hand: false,
                        },
                    ),
                ),
            ),
        decreases old(self).rank(), 2nat,
    {
        let ghost s0 = *self;
        proof {
            if s0.short_prop_ahead() || s0.colon_prop_ahead() {
                s0.lemma_can_read_advance(0);
            }
        }
        let start = self.look_ahead.copy();
        let start_pos = self.look_ahead_position;
        let mut has_proto = has_proto;
        let mut at_get = false;
        let mut at_set = false;
        let (key, is_async, computed) = if start.is_ident() {
            let id = start.text.as_str();
            at_get = str_eq(id, "get");
            at_set = str_eq(id, "set");
            let _ = self.next_item()?;
            proof {
                if s0.short_prop_ahead() || s0.colon_prop_ahead() {
                    Self::lemma_read_one(s0, *self);
                }
                if s0.colon_prop_ahead() {
                    assert(s0.can_read(2 + 1));
                    self.lemma_can_read_advance(1);
                }
            }
            let computed = self.at_punct(Punct::OpenBracket);
            let is_async = self.has_line_term && str_eq(id, "async") && !self.at_punct(Punct::Colon)
                && !self.at_punct(Punct::Asterisk) && !self.at_punct(Punct::Comma);
            let key = if is_async {
                self.parse_object_property_key()?
            } else {
                PropertyKey::Expr(Expr::Ident(start.text.clone()))
            };
            (Some(key), is_async, computed)
        } else if self.at_punct(Punct::Asterisk) {
            self.next_item()?;
            (None, false, false)
        } else {
            let computed = self.at_punct(Punct::OpenBracket);
            let key = self.parse_object_property_key()?;
            (Some(key), false, computed)
        };
        let at_qualified = self.at_qualified_prop_key();
        let prop = if at_get && at_qualified && !is_async {
            let computed = self.at_punct(Punct::OpenBracket);
            let key = self.parse_object_property_key()?;
            let value = self.parse_getter_method()?;
            ObjectProperty::Property(
                Property {
                    computed,
                    key,
                    value,
                    kind: PropertyKind::Get,
                    method: false,
                    short_hand: false,
                },
            )
        } else if at_set && at_qualified && !is_async {
            let computed = self.at_punct(Punct::OpenBracket);
            let key = self.parse_object_property_key()?;
            let value = self.parse_setter_method()?;
            ObjectProperty::Property(
                Property {
                    computed,
                    key,
                    value,
                    kind: PropertyKind::Setter,
                    method: false,
                    short_hand: false,
                },
            )
        } else if start.matches_punct(Punct::Asterisk) && at_qualified {
            let computed = self.at_punct(Punct::OpenBracket);
            let key = self.parse_object_property_key()?;
            let value = self.parse_generator_method()?;
            ObjectProperty::Property(
                Property {
                    computed,
                    key,
                    value,
                    kind: PropertyKind::Init,
                    method: true,
                    short_hand: false,
                },
            )
        } else {
            match key {
                Some(key) => {
                    let kind = PropertyKind::Init;
                    if self.at_punct(Punct::Colon) && !is_async {
                        if !computed && Self::is_proto_(&key) {
                            if has_proto {
                                self.tolerate_error(
                                    ParseError::Redecl(
                                        start_pos,
                                        String::from_str("prototype can only be declared once"),
                                    ),
                                )?;
                            }
                            has_proto = true;
                        }
                        let ghost s1 = *self;
                        let _ = self.next_item()?;
                        proof {
                            if s0.colon_prop_ahead() {
                                let s2 = *self;
                                Self::lemma_read_one(s1, s2);
                                Self::lemma_reads_compose(s0, s1, s2, 1, 1);
                                assert(s2.look_ahead == s0.ahead(1)) by {
                                    assert(s1.ahead(0) == s0.ahead(0 + 1));
                                }
                                assert(s0.can_read(1 + 2));
                                s2.lemma_can_read_advance(0);
                                assert(s2.ahead(0) == s0.ahead(0 + 2));
                                assert(s2.next_token() == s2.ahead(0));
                                assert(s2.simple_ahead());
                            }
                        }
                        let (prev_bind, prev_assign, prev_first) = self.get_cover_grammar_state();
                        let value = self.parse_assignment_expr()?;
                        self.set_inherit_cover_grammar_state(prev_bind, prev_assign, prev_first);
                        ObjectProperty::Property(
                            Property {
                                computed,
                                key,
                                value: PropertyValue::Expr(value),
                                kind,
                                method: false,
                                short_hand: false,
                            },
                        )
                    } else if self.at_punct(Punct::OpenParen) {
                        let value = if is_async {
                            self.parse_async_property_method()?
                        } else {
                            self.parse_property_method()?
                        };
                        ObjectProperty::Property(
                            Property { computed, key, value, kind, method: true, short_hand: false },
                        )
                    } else if start.is_ident() {
                        if self.at_punct(Punct::Equal) {
                            self.context.first_covert_initialized_name_error = Some(
                                self.look_ahead.span,
                            );
                            let _ = self.next_item()?;
                            let (prev_bind, prev_assign, prev_first) = self.inherit_cover_grammar();
                            let inner = self.parse_assignment_expr()?;
                            self.set_isolate_cover_grammar_state(prev_bind, prev_assign, prev_first)?;
                            ObjectProperty::Property(
                                Property {
                                    computed,
                                    key,
                                    value: PropertyValue::Expr(inner),
                                    kind,
                                    method: false,
                                    short_hand: true,
                                },
                            )
                        } else {
                            ObjectProperty::Property(
                                Property {
                                    computed,
                                    key,
                                    value: PropertyValue::NoValue,
                                    kind,
                                    method: false,
                                    short_hand: true,
                                },
                            )
                        }
                    } else {
                        return self.expected_token_error(&start, &["object property value"]);
                    }
                },
                None => {
                    return self.expected_token_error(&start, &["object property key"]);
                },
            }
        };
        Ok((has_proto, prop))
    }

    #[verifier::spinoff_prover]
    pub(crate) fn parse_template_literal(&mut self) -> (r: Res<TemplateLiteral>)
        requires
            old(self).inv(),
        ensures
            final(self).moved(*old(self), r is Ok),
            r is Ok ==> old(self).look_ahead.spec_is_template_head(),
            r matches Ok(t) ==> t.quasis.len() == t.expressions.len() + 1 && t.quasis@[t.quasis.len()
                - 1].tail && forall|i: int| 0 <= i < t.quasis.len() - 1 ==> !(#[trigger] t.quasis@[i]).tail,
        decreases old(self).rank(), 1nat,
    {
        if !self.look_ahead.is_template_head() {
            return self.expected_token_error(
                &self.look_ahead,
                &["template head", "template no sub"],
            );
        }
        let mut expressions: Vec<Expr> = Vec::new();
        let mut quasis: Vec<TemplateElement> = Vec::new();
        let quasi = self.parse_template_element()?;
        let mut breaking = quasi.tail;
        quasis.push(quasi);
        while !breaking
            invariant
                self.advanced(*old(self)),
                quasis.len() == expressions.len() + 1,
                breaking == quasis@[quasis.len() - 1].tail,
                forall|i: int| 0 <= i < quasis.len() - 1 ==> !(#[trigger] quasis@[i]).tail,
            decreases self.rank(),
        {
            expressions.push(self.parse_expression()?);
            let quasi = self.parse_template_element()?;
            breaking = quasi.tail;
            let ghost before = quasis@;
            quasis.push(quasi);
            proof {
                assert(forall|i: int| 0 <= i < before.len() ==> quasis@[i] == before[i]);
            }
        }
        Ok(TemplateLiteral { expressions, quasis })
    }

    #[verifier::spinoff_prover]
    pub(crate) fn parse_template_element(&mut self) -> (r: Res<TemplateElement>)
        requires
            old(self).inv(),
        ensures
            final(self).moved(*old(self), r is Ok),
            r matches Ok(el) ==> (old(self).look_ahead.kind matches TokKind::Template(p, c) && el.raw
                == old(self).look_ahead.text && el.cooked == c && el.tail == (p == TemplatePart::Tail
                || p == TemplatePart::NoSub)),
            r is Ok <==> old(self).can_advance() && old(self).look_ahead.kind is Template,
    {
        let item = self.next_item()?;
        match item.kind {
            TokKind::Template(part, cooked) => {
                let tail = match part {
                    TemplatePart::Head => false,
                    TemplatePart::Middle => false,
                    TemplatePart::Tail => true,
                    TemplatePart::NoSub => true,
                };
                Ok(TemplateElement { raw: item.text, cooked, tail })
            },
            _ => self.expected_token_error(&self.look_ahead, &["Template part"]),
        }
    }

    #[verifier::spinoff_prover]
    pub(crate) fn parse_function_expr(&mut self) -> (r: Res<Expr>)
        requires
            old(self).inv(),
        ensures
            final(self).moved(*old(self), r is Ok),
            r matches Ok(e) ==> e is Function,
        decreases old(self).rank(), 1nat,
    {
        let is_async = self.at_contextual_keyword("async");
        if is_async {
            let _ = self.next_item()?;
        }
        self.expect_keyword(Keyword::Function)?;
        let is_gen = self.at_punct(Punct::Asterisk);
        if is_gen {
            let _ = self.next_item()?;
        }
        let prev_await = self.context.allow_await;
        let prev_yield = self.context.allow_yield;
        self.set_flag(Flag::AllowAwait, is_async);
        self.set_flag(Flag::AllowYield, !is_gen);
        let mut found_restricted = false;
        let id = if !self.at_punct(Punct::OpenParen) {
            let item = self.look_ahead.copy();
            let id = self.parse_fn_name(is_gen)?;
            if item.is_restricted() {
                if self.context.strict {
                    if !self.config.tolerant {
                        return self.unexpected_token_error(
                            &item,
                            "restricted ident in strict context",
                        );
                    }
                } else {
                    found_restricted = true;
                }
            }
            if item.is_strict_reserved() {
                found_restricted = true;
            }
            Some(id)
        } else {
            None
        };
        let formal_params = self.parse_formal_params()?;
        found_restricted = found_restricted || formal_params.found_restricted;
        let prev_strict = self.context.strict;
        let prev_strict_dir = formal_params.simple;
        let start = self.look_ahead.copy();
        let body = self.parse_function_source_el()?;
        if self.context.strict && found_restricted {
            if !self.config.tolerant {
                return self.unexpected_token_error(&start, "restricted ident in strict context");
            }
        }
        self.set_flag(Flag::Strict, prev_strict);
        self.set_flag(Flag::AllowStrictDirective, prev_strict_dir);
        self.set_flag(Flag::AllowYield, prev_yield);
        self.set_flag(Flag::AllowAwait, prev_await);
        Ok(
            Expr::Function(
                Function { id, params: formal_params.params, body, generator: is_gen, is_async },
            ),
        )
    }

    #[verifier::spinoff_prover]
    pub(crate) fn parse_fn_name(&mut self, is_gen: bool) -> (r: Res<String>)
        requires
            old(self).inv(),
        ensures
            final(self).moved(*old(self), r is Ok),
            final(self).context == old(self).context,
            r matches Ok(s) ==> s == old(self).look_ahead.text,
            r is Ok <==> old(self).can_advance() && (if old(self).context.strict && !is_gen && old(
                self,
            ).look_ahead.spec_is_keyword(Keyword::Yield) {
                true
            } else {
                old(self).var_ident_ok(false)
            }),
    {
        if self.context.strict && !is_gen && self.at_keyword(Keyword::Yield) {
            self.parse_ident_name()
        } else {
            self.parse_var_ident(false)
        }
    }

    /// Read the look-ahead token as a name, whatever kind it is.
    #[verifier::spinoff_prover]
    pub(crate) fn parse_ident_name(&mut self) -> (r: Res<String>)
        requires
            old(self).inv(),
        ensures
            final(self).moved(*old(self), r is Ok),
            final(self).context == old(self).context,
            r matches Ok(s) ==> s == old(self).look_ahead.text,
            r is Ok <==> old(self).can_advance(),
            r is Ok ==> Self::reads_next(*old(self), *final(self)),
    {
        let ident = self.next_item()?;
        Ok(ident.text)
    }

    /// The look-ahead token may be read as the name of a variable here:
    /// `yield` where it may be a name, another keyword outside strict mode
    /// when it is no `let` and the binding is a `var`, an identifier unless
    /// it is `await` in a module or an async function.
    pub(crate) open spec fn var_ident_ok(&self, is_var: bool) -> bool {
        ident_ok(self.context, self.config.is_module, self.look_ahead, is_var)
    }

    /// Read the look-ahead token as the name of a variable: an identifier
    /// other than `await` in a module or async function, `yield` where it
    /// is allowed, or outside strict mode a keyword other than `let` in a
    /// `var` binding.
    #[verifier::spinoff_prover]
    pub(crate) fn parse_var_ident(&mut self, is_var: bool) -> (r: Res<String>)
        requires
            old(self).inv(),
        ensures
            final(self).moved(*old(self), r is Ok),
            final(self).context == old(self).context,
            r matches Ok(s) ==> s == old(self).look_ahead.text && (old(self).look_ahead.kind is Ident
                || old(self).look_ahead.kind is Keyword),
            r is Ok && old(self).look_ahead.kind is Ident ==> !((old(self).config.is_module
                || old(self).context.allow_await) && old(self).look_ahead.text@ == "await"@),
            r is Ok && old(self).look_ahead.kind is Keyword ==> !old(self).context.strict,
            r is Ok <==> old(self).can_advance() && old(self).var_ident_ok(is_var),
            r is Ok ==> Self::reads_next(*old(self), *final(self)),
    {
        let ident = self.next_item()?;
        if ident.matches_keyword(Keyword::Yield) {
            if self.context.strict || !self.context.allow_yield {
                return self.expected_token_error(&ident, &["variable identifier"]);
            }
        } else if !ident.is_ident() {
            if self.context.strict && ident.is_strict_reserved() {
                return self.expected_token_error(&ident, &["variable identifier"]);
            }
            if self.context.strict || ident.matches_keyword(Keyword::Let) || !is_var {
                return self.expected_token_error(&ident, &["variable identifier"]);
            }
        } else if (self.config.is_module || self.context.allow_await) && str_eq(
            ident.text.as_str(),
            "await",
        ) {
            return self.expected_token_error(&ident, &["variable identifier"]);
        }
        if ident.is_ident() || ident.is_keyword() {
            Ok(ident.text)
        } else {
            self.expected_token_error(&ident, &["variable identifier"])
        }
    }

    #[verifier::spinoff_prover]
    pub(crate) fn parse_object_property_key(&mut self) -> (r: Res<PropertyKey>)
        requires
            old(self).inv(),
        ensures
            final(self).moved(*old(self), r is Ok),
            r matches Ok(k) ==> (old(self).look_ahead.kind is Str ==> k == PropertyKey::Literal(
                Literal::String(old(self).look_ahead.text),
            )) && (old(self).look_ahead.kind is Number ==> k == PropertyKey::Literal(
                Literal::Number(old(self).look_ahead.text),
            )) && (old(self).look_ahead.kind is Ident || old(self).look_ahead.kind is Keyword || old(
                self,
            ).look_ahead.kind is Null || old(self).look_ahead.kind is Boolean ==> k == PropertyKey::Expr(
                Expr::Ident(old(self).look_ahead.text),
            )),
            r is Ok ==> old(self).look_ahead.kind is Str || old(self).look_ahead.kind is Number || old(
                self,
            ).look_ahead.kind is Ident || old(self).look_ahead.kind is Keyword || old(
                self,
            ).look_ahead.kind is Null || old(self).look_ahead.kind is Boolean || old(
                self,
            ).look_ahead.spec_is_punct(Punct::OpenBracket),
            old(self).look_ahead.kind is Ident && old(self).can_read(1) ==> r is Ok && Self::reads_from(
                *old(self),
                *final(self),
                1,
            ) && final(self).look_ahead == old(self).ahead(0),
        decreases old(self).rank(), 1nat,
    {
        proof {
            if old(self).look_ahead.kind is Ident && old(self).can_read(1) {
                old(self).lemma_can_read_advance(0);
            }
        }
        let item = self.next_item()?;
        proof {
            if old(self).look_ahead.kind is Ident && old(self).can_read(1) {
                Self::lemma_read_one(*old(self), *self);
            }
        }
        if item.is_string() || item.is_number() {
            if item.is_string() {
                Ok(PropertyKey::Literal(Literal::String(item.text)))
            } else {
                if self.at_big_int_flag() {
                    return self.unexpected_token_error(
                        &self.look_ahead,
                        "BigInt cannot be uses as an object literal key",
                    );
                }
                Ok(PropertyKey::Literal(Literal::Number(item.text)))
            }
        } else if item.is_ident() || item.is_null() || item.is_keyword() || item.is_boolean() {
            Ok(PropertyKey::Expr(Expr::Ident(item.text)))
        } else if item.matches_punct(Punct::OpenBracket) {
            let (prev_bind, prev_assign, prev_first) = self.isolate_cover_grammar();
            let key = self.parse_assignment_expr()?;
            self.set_isolate_cover_grammar_state(prev_bind, prev_assign, prev_first)?;
            let id = if Self::is_valid_property_key_literal(&key) {
                match key {
                    Expr::Literal(lit) => PropertyKey::Literal(lit),
                    _ => {
                        return self.expected_token_error(
                            &self.look_ahead,
                            &["property key literal"],
                        );
                    },
                }
            } else {
                PropertyKey::Expr(key)
            };
            self.expect_punct(Punct::CloseBracket)?;
            Ok(id)
        } else {
            self.expected_token_error(
                &item,
                &["[string]", "[number]", "[ident]", "[boolean]", "null", "[keyword]", "["],
            )
        }
    }
}

} // verus!

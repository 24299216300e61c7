//! Directives, and the import and export declarations of modules.
use vstd::prelude::*;
use vstd::string::{StringExecFns, StringSliceAdditionalSpecFns};
use vstd::utf8::{encode_utf8, is_char_boundary};
use crate::ast::{
    Decl, DefaultExportDecl, Dir, ExportSpecifier, Expr, ImportSpecifier, Literal, ModExport,
    ModImport, NamedExportDecl, ProgramPart, Stmt, VariableKind,
};
use crate::error::ParseError;
use crate::parser::{next_real, simple_tree, CommentHandler, Flag, Parser, Res};
use crate::scan::text_get;
use crate::tokens::{str_eq, Keyword, Punct};

verus! {

/// A quote mark: `'` or `"`.
pub open spec fn is_quote(c: u8) -> bool {
    c == 0x27u8 || c == 0x22u8
}

/// The index of the first byte at or after `i` that is no quote mark.
pub open spec fn first_unquoted(b: Seq<u8>, i: int) -> int
    decreases b.len() - i,
{
    if i >= b.len() || i < 0 {
        b.len() as int
    } else if is_quote(b[i]) {
        first_unquoted(b, i + 1)
    } else {
        i
    }
}

/// The index just after the last byte before `j`, and at or after `lo`,
/// that is no quote mark; `lo` when there is none.
pub open spec fn last_unquoted_end(b: Seq<u8>, lo: int, j: int) -> int
    decreases j - lo,
{
    if j <= lo {
        lo
    } else if is_quote(b[j - 1]) {
        last_unquoted_end(b, lo, j - 1)
    } else {
        j
    }
}

/// `s` without the quote marks at either end.
pub fn trim_quotes(s: &str) -> (r: String)
    ensures
        ({
            let b = s.spec_bytes();
            let lo = first_unquoted(b, 0);
            let hi = last_unquoted_end(b, lo, b.len() as int);
            is_char_boundary(b, lo) && is_char_boundary(b, hi) ==> encode_utf8(r@) == b.subrange(
                lo,
                hi,
            )
        }),
{
    let b = s.as_bytes();
    let mut lo: usize = 0;
    while lo < b.len() && (b[lo] == 0x27u8 || b[lo] == 0x22u8)
        invariant
            lo <= b@.len(),
            first_unquoted(b@, 0) == first_unquoted(b@, lo as int),
        decreases b.len() - lo,
    {
        lo = lo + 1;
    }
    let mut hi: usize = b.len();
    while hi > lo && (b[hi - 1] == 0x27u8 || b[hi - 1] == 0x22u8)
        invariant
            lo <= hi <= b@.len(),
            last_unquoted_end(b@, lo as int, b@.len() as int) == last_unquoted_end(
                b@,
                lo as int,
                hi as int,
            ),
        decreases hi - lo,
    {
        hi = hi - 1;
    }
    match text_get(s, lo, hi) {
        Some(t) => {
            proof {
                vstd::utf8::encode_utf8_decode_utf8(t@);
            }
            t.to_owned()
        },
        None => s.to_owned(),
    }
}

impl<'a, CH: CommentHandler> Parser<'a, CH> {
    /// Parse all of the directives into a single prologue: directives are
    /// read while the look-ahead is a string, and the prologue ends at the
    /// first token that is none.
    #[verifier::spinoff_prover]
    pub(crate) fn parse_directive_prologues(&mut self) -> (r: Res<Vec<ProgramPart>>)
        requires
            old(self).inv(),
        ensures
            final(self).stepped(*old(self)),
            r matches Ok(v) ==> !(final(self).look_ahead.kind is Str) && forall|k: int|
                0 <= k < v.len() ==> (#[trigger] v@[k]) is Dir || v@[k] matches ProgramPart::Stmt(
                    Stmt::Expr(_),
                ),
            !(old(self).look_ahead.kind is Str) ==> (r matches Ok(v) && v.len() == 0 && *final(self)
                == *old(self)),
        decreases old(self).rank(), 12nat,
    {
        let mut ret: Vec<ProgramPart> = Vec::new();
        loop
            invariant
                self.stepped(*old(self)),
                forall|k: int|
                    0 <= k < ret.len() ==> (#[trigger] ret@[k]) is Dir || ret@[k] matches ProgramPart::Stmt(
                        Stmt::Expr(_),
                    ),
                ret.len() == 0 ==> *self == *old(self),
                ret.len() > 0 ==> old(self).look_ahead.kind is Str,
            ensures
                self.stepped(*old(self)),
                !(self.look_ahead.kind is Str),
                forall|k: int|
                    0 <= k < ret.len() ==> (#[trigger] ret@[k]) is Dir || ret@[k] matches ProgramPart::Stmt(
                        Stmt::Expr(_),
                    ),
                ret.len() == 0 ==> *self == *old(self),
                ret.len() > 0 ==> old(self).look_ahead.kind is Str,
            decreases self.rank(),
        {
            if !self.look_ahead.is_string() {
                break;
            }
            let part = self.parse_directive()?;
            let ghost before = ret@;
            ret.push(part);
            proof {
                assert(forall|k: int| 0 <= k < before.len() ==> ret@[k] == before[k]);
            }
        }
        Ok(ret)
    }

    /// Parse a single directive
    #[verifier::spinoff_prover]
    pub(crate) fn parse_directive(&mut self) -> (r: Res<ProgramPart>)
        requires
            old(self).inv(),
        ensures
            final(self).moved(*old(self), r is Ok),
            r matches Ok(p) ==> p is Dir || p matches ProgramPart::Stmt(Stmt::Expr(_)),
            r matches Ok(ProgramPart::Dir(d)) ==> (d.dir@ == "use strict"@ ==> final(self).context.strict),
            old(self).semi_simple_ahead() && old(self).look_ahead.kind is Str
                && old(self).context.allow_strict_directive ==> (r matches Ok(ProgramPart::Dir(d))
                && d.expr == Literal::String(old(self).look_ahead.text)),
        decreases old(self).rank(), 11nat,
    {
        let orig = self.look_ahead.copy();
        let allow_strict = self.context.allow_strict_directive;
        let expr = self.parse_expression()?;
        proof {
            if old(self).semi_simple_ahead() && old(self).look_ahead.kind is Str {
                assert(old(self).can_read(1 + 1));
                self.lemma_can_read_advance(0);
            }
        }
        match expr {
            Expr::Literal(Literal::String(s)) => {
                let dir = trim_quotes(s.as_str());
                let use_strict = str_eq(dir.as_str(), "use strict");
                if !allow_strict && use_strict {
                    return self.unexpected_token_error(&orig, "use strict in an invalid location");
                }
                self.consume_semicolon()?;
                if use_strict {
                    let ghost c = self.context;
                    self.set_flag(Flag::Strict, true);
                    proof {
                        crate::parser::lemma_flag_restored(c, Flag::Strict, true);
                    }
                }
                Ok(ProgramPart::Dir(Dir { dir, expr: Literal::String(s) }))
            },
            Expr::Literal(lit) => Ok(ProgramPart::Stmt(Stmt::Expr(Expr::Literal(lit)))),
            other => {
                self.consume_semicolon()?;
                Ok(ProgramPart::Stmt(Stmt::Expr(other)))
            },
        }
    }

    /// This will cover all possible import statements supported
    /// ```js
    /// import * as Stuff from 'place'; //namespace
    /// import Thing from 'place'; //default
    /// import {Thing} from 'place'; //named
    /// import Person, {Thing} from 'place';// default + named
    /// import Thing, * as Stuff from 'place';
    /// import 'place';
    /// ```
    #[verifier::spinoff_prover]
    pub(crate) fn parse_import_decl(&mut self) -> (r: Res<ModImport>)
        requires
            old(self).inv(),
        ensures
            final(self).moved(*old(self), r is Ok),
            r is Ok ==> old(self).look_ahead.spec_is_keyword(Keyword::Import),
    {
        self.expect_keyword(Keyword::Import)?;
        if self.look_ahead.is_string() {
            let source = self.parse_module_specifier()?;
            self.consume_semicolon()?;
            return Ok(ModImport { specifiers: Vec::new(), source });
        }
        let specifiers = if self.at_punct(Punct::OpenBrace) {
            self.parse_named_imports()?
        } else if self.at_punct(Punct::Asterisk) {
            vec![self.parse_import_namespace_specifier()?]
        } else if self.at_possible_ident() && !self.at_keyword(Keyword::Default) {
            let mut specifiers = vec![self.parse_import_default_specifier()?];
            if self.at_punct(Punct::Comma) {
                let _ = self.next_item()?;
                if self.at_punct(Punct::Asterisk) {
                    specifiers.push(self.parse_import_namespace_specifier()?);
                } else if self.at_punct(Punct::OpenBrace) {
                    let mut named = self.parse_named_imports()?;
                    specifiers.append(&mut named);
                } else {
                    return self.expected_token_error(&self.look_ahead, &["{", "*"]);
                }
            }
            specifiers
        } else {
            return self.expected_token_error(
                &self.look_ahead,
                &["{", "*", "[ident]", "[string]"],
            );
        };
        if !self.at_contextual_keyword("from") {
            return self.expected_token_error(&self.look_ahead, &["from"]);
        }
        let _ = self.next_item()?;
        let source = self.parse_module_specifier()?;
        self.consume_semicolon()?;
        Ok(ModImport { specifiers, source })
    }

    /// This will handle the named variant of imports
    /// ```js
    /// import {Thing} from 'place';
    /// ```
    #[verifier::spinoff_prover]
    pub(crate) fn parse_named_imports(&mut self) -> (r: Res<Vec<ImportSpecifier>>)
        requires
            old(self).inv(),
        ensures
            final(self).moved(*old(self), r is Ok),
            r is Ok ==> old(self).look_ahead.spec_is_punct(Punct::OpenBrace),
            old(self).empty_block_ahead() ==> (r matches Ok(v) && v.len() == 0 && final(self).look_ahead
                == old(self).ahead(1)),
    {
        let ghost s0 = *self;
        let ghost empty = s0.empty_block_ahead();
        proof {
            if empty {
                s0.lemma_can_read_advance(1);
            }
        }
        self.expect_punct(Punct::OpenBrace)?;
        let ghost s1 = *self;
        proof {
            if empty {
                Self::lemma_read_step(s0, s1, 1);
                s1.lemma_can_read_advance(0);
            }
        }
        let mut ret: Vec<ImportSpecifier> = Vec::new();
        while !self.at_punct(Punct::CloseBrace)
            invariant
                self.advanced(*old(self)),
                empty == old(self).empty_block_ahead(),
                empty ==> ret.len() == 0 && *self == s1 && self.look_ahead.spec_is_punct(
                    Punct::CloseBrace,
                ),
            decreases self.rank(),
        {
            ret.push(self.parse_import_specifier()?);
            if !self.at_punct(Punct::CloseBrace) {
                self.expect_punct(Punct::Comma)?;
            }
        }
        self.expect_punct(Punct::CloseBrace)?;
        proof {
            if empty {
                Self::lemma_read_step(s1, *self, 0);
                assert(s1.ahead(0) == s0.ahead(1));
            }
        }
        Ok(ret)
    }

    #[verifier::spinoff_prover]
    pub(crate) fn parse_import_specifier(&mut self) -> (r: Res<ImportSpecifier>)
        requires
            old(self).inv(),
        ensures
            final(self).moved(*old(self), r is Ok),
            r matches Ok(s) ==> s is Normal,
            r matches Ok(ImportSpecifier::Normal(imported, _)) ==> imported == old(self).look_ahead.text,
            !(old(self).look_ahead.kind is EoF) ==> (r matches Ok(ImportSpecifier::Normal(_, local))
                ==> (local is Some <==> old(self).next_token().text@ == "as"@)),
            old(self).can_read(3) && old(self).ahead(0).text@ == "as"@ ==> (r matches Ok(
                ImportSpecifier::Normal(_, Some(local)),
            ) ==> local == old(self).ahead(1).text),
    {
        let ghost s0 = *self;
        if self.look_ahead.is_ident() {
            let imported = self.parse_var_ident(false)?;
            proof {
                s0.lemma_advance_reads();
                reveal(Parser::reads_next);
                if s0.can_read(3) {
                    Self::lemma_read_one(s0, *self);
                    assert(s0.can_read(2 + 1));
                    self.lemma_can_read_advance(1);
                }
            }
            let ghost s1 = *self;
            let local = if self.at_contextual_keyword("as") {
                let _ = self.next_item();
                proof {
                    if s0.can_read(3) {
                        Self::lemma_read_one(s1, *self);
                        assert(s1.ahead(0) == s0.ahead(0 + 1));
                    }
                }
                Some(self.parse_var_ident(false)?)
            } else {
                None
            };
            Ok(ImportSpecifier::Normal(imported, local))
        } else {
            let imported = self.parse_ident_name()?;
            proof {
                if !(s0.look_ahead.kind is EoF) {
                    s0.lemma_advance_reads();
                    reveal(Parser::reads_next);
                }
                if s0.can_read(3) {
                    Self::lemma_read_one(s0, *self);
                    assert(s0.can_read(2 + 1));
                    self.lemma_can_read_advance(1);
                }
            }
            let ghost s1 = *self;
            let local = if self.at_contextual_keyword("as") {
                let _ = self.next_item()?;
                proof {
                    if s0.can_read(3) {
                        Self::lemma_read_one(s1, *self);
                        assert(s1.ahead(0) == s0.ahead(0 + 1));
                    }
                }
                Some(self.parse_var_ident(false)?)
            } else {
                None
            };
            Ok(ImportSpecifier::Normal(imported, local))
        }
    }

    #[verifier::spinoff_prover]
    pub(crate) fn parse_import_namespace_specifier(&mut self) -> (r: Res<ImportSpecifier>)
        requires
            old(self).inv(),
        ensures
            final(self).moved(*old(self), r is Ok),
            r matches Ok(s) ==> s is Namespace,
            r is Ok ==> old(self).look_ahead.spec_is_punct(Punct::Asterisk),
            old(self).look_ahead.spec_is_punct(Punct::Asterisk) && old(self).can_read(3) && old(
                self,
            ).ahead(0).text@ == "as"@ ==> r == Ok::<ImportSpecifier, ParseError>(
                ImportSpecifier::Namespace(old(self).ahead(1).text),
            ),
    {
        let ghost s0 = *self;
        let ghost shape = s0.look_ahead.spec_is_punct(Punct::Asterisk) && s0.can_read(3) && s0.ahead(
            0,
        ).text@ == "as"@;
        proof {
            if shape {
                s0.lemma_can_read_advance(2);
            }
        }
        self.expect_punct(Punct::Asterisk)?;
        let ghost s1 = *self;
        proof {
            if shape {
                Self::lemma_read_step(s0, s1, 2);
                s1.lemma_can_read_advance(1);
            }
        }
        if !self.at_contextual_keyword("as") {
            return self.expected_token_error(&self.look_ahead, &["as"]);
        }
        let _ = self.next_item()?;
        let ghost s2 = *self;
        proof {
            if shape {
                Self::lemma_read_step(s1, s2, 1);
                s2.lemma_can_read_advance(0);
                assert(s2.look_ahead == s1.ahead(0));
                assert(s1.ahead(0) == s0.ahead(1));
            }
        }
        let ident = self.parse_ident_name()?;
        Ok(ImportSpecifier::Namespace(ident))
    }

    #[verifier::spinoff_prover]
    pub(crate) fn parse_import_default_specifier(&mut self) -> (r: Res<ImportSpecifier>)
        requires
            old(self).inv(),
        ensures
            final(self).moved(*old(self), r is Ok),
            r matches Ok(s) ==> s == ImportSpecifier::Default(old(self).look_ahead.text),
            r is Ok <==> old(self).can_advance(),
    {
        let ident = self.parse_ident_name()?;
        Ok(ImportSpecifier::Default(ident))
    }

    #[verifier::spinoff_prover]
    pub(crate) fn parse_export_decl(&mut self) -> (r: Res<ModExport>)
        requires
            old(self).inv(),
        ensures
            final(self).moved(*old(self), r is Ok),
            r is Ok ==> old(self).look_ahead.spec_is_keyword(Keyword::Export),
            old(self).simple_default_export_ahead() ==> r == Ok::<ModExport, ParseError>(
                ModExport::Default(DefaultExportDecl::Expr(simple_tree(old(self).ahead(1)))),
            ),
        decreases old(self).rank(), 1nat,
    {
        let ghost s0 = *self;
        proof {
            if s0.simple_default_export_ahead() {
                s0.lemma_can_read_advance(2);
            }
        }
        self.expect_keyword(Keyword::Export)?;
        let ghost s1 = *self;
        proof {
            if s0.simple_default_export_ahead() {
                Self::lemma_read_one(s0, s1);
                assert(s1.can_read(2)) by {
                    assert(s0.can_read(2 + 1));
                }
                s1.lemma_can_read_advance(1);
            }
        }
        if self.at_keyword(Keyword::Default) {
            let _ = self.next_item()?;
            proof {
                if s0.simple_default_export_ahead() {
                    let s2 = *self;
                    Self::lemma_read_one(s1, s2);
                    Self::lemma_reads_compose(s0, s1, s2, 1, 1);
                    assert(s2.can_read(1)) by {
                        assert(s0.can_read(1 + 2));
                    }
                    s2.lemma_can_read_advance(0);
                    assert(s2.look_ahead == s0.ahead(1)) by {
                        assert(s1.ahead(0) == s0.ahead(0 + 1));
                    }
                    assert(s2.ahead(0) == s0.ahead(0 + 2));
                    assert(s2.next_token() == s2.ahead(0));
                    assert(s2.simple_ahead());
                }
            }
            let decl = if self.at_keyword(Keyword::Function) {
                let func = Decl::Function(self.parse_function_decl(true)?);
                DefaultExportDecl::Decl(func)
            } else if self.at_keyword(Keyword::Class) {
                let class = Decl::Class(self.parse_class_decl(true)?);
                DefaultExportDecl::Decl(class)
            } else if self.at_contextual_keyword("async") {
                if self.at_async_function() {
                    let func = self.parse_function_decl(true)?;
                    DefaultExportDecl::Decl(Decl::Function(func))
                } else {
                    let expr = self.parse_assignment_expr()?;
                    DefaultExportDecl::Expr(expr)
                }
            } else {
                if self.at_punct(Punct::OpenBrace) {
                    let expr = self.parse_obj_init()?;
                    DefaultExportDecl::Expr(expr)
                } else if self.at_punct(Punct::OpenBracket) {
                    let expr = self.parse_array_init()?;
                    DefaultExportDecl::Expr(expr)
                } else {
                    let expr = self.parse_assignment_expr()?;
                    DefaultExportDecl::Expr(expr)
                }
            };
            Ok(ModExport::Default(decl))
        } else if self.at_punct(Punct::Asterisk) {
            let _ = self.next_item()?;
            let _ = self.next_item()?;
            let source = self.parse_module_specifier()?;
            self.consume_semicolon()?;
            Ok(ModExport::All(source))
        } else if self.look_ahead.is_keyword() {
            if self.at_keyword(Keyword::Let) || self.at_keyword(Keyword::Const) {
                let lex = self.parse_lexical_decl(false)?;
                self.consume_semicolon()?;
                Ok(ModExport::Named(NamedExportDecl::Decl(lex)))
            } else if self.at_keyword(Keyword::Var) {
                let _ = self.next_item()?;
                let var = Decl::Variable(VariableKind::Var, self.parse_variable_decl_list(false)?);
                self.consume_semicolon()?;
                Ok(ModExport::Named(NamedExportDecl::Decl(var)))
            } else if self.at_keyword(Keyword::Class) {
                let class = self.parse_class_decl(true)?;
                Ok(ModExport::Named(NamedExportDecl::Decl(Decl::Class(class))))
            } else if self.at_keyword(Keyword::Function) {
                let func = self.parse_function_decl(true)?;
                Ok(ModExport::Named(NamedExportDecl::Decl(Decl::Function(func))))
            } else {
                self.expected_token_error(
                    &self.look_ahead,
                    &["let", "var", "const", "class", "function"],
                )
            }
        } else if self.at_async_function() {
            let func = self.parse_function_decl(false)?;
            Ok(ModExport::Named(NamedExportDecl::Decl(Decl::Function(func))))
        } else {
            self.expect_punct(Punct::OpenBrace)?;
            let mut specifiers: Vec<ExportSpecifier> = Vec::new();
            let mut found_default = false;
            while !self.at_punct(Punct::CloseBrace)
                invariant
                    self.advanced(*old(self)),
                    !old(self).simple_default_export_ahead(),
                decreases self.rank(),
            {
                if self.at_keyword(Keyword::Default) {
                    found_default = true;
                }
                specifiers.push(self.parse_export_specifier()?);
                if !self.at_punct(Punct::CloseBrace) {
                    self.expect_punct(Punct::Comma)?;
                }
            }
            let _ = self.next_item()?;
            if self.at_contextual_keyword("from") {
                let _ = self.next_item()?;
                let source = self.parse_module_specifier()?;
                self.consume_semicolon()?;
                Ok(ModExport::Named(NamedExportDecl::Specifier(specifiers, Some(source))))
            } else if found_default {
                self.expected_token_error(&self.look_ahead, &[""])
            } else {
                self.consume_semicolon()?;
                Ok(ModExport::Named(NamedExportDecl::Specifier(specifiers, None)))
            }
        }
    }

    #[verifier::spinoff_prover]
    pub(crate) fn parse_export_specifier(&mut self) -> (r: Res<ExportSpecifier>)
        requires
            old(self).inv(),
        ensures
            final(self).moved(*old(self), r is Ok),
            r matches Ok(s) ==> s.local == old(self).look_ahead.text,
            r is Ok ==> old(self).can_advance(),
            old(self).can_advance() && old(self).live() && next_real(
                old(self).input.stream@,
                old(self).cursor as int,
            ) < old(self).input.stream.len() && old(self).input.stream@[next_real(
                old(self).input.stream@,
                old(self).cursor as int,
            )].text@ != "as"@ ==> (r matches Ok(s) && s.exported is None),
    {
        let local = self.parse_ident_name()?;
        proof {
            reveal(Parser::reads_next);
        }
        let exported = if self.at_contextual_keyword("as") {
            let _ = self.next_item()?;
            Some(self.parse_ident_name()?)
        } else {
            None
        };
        Ok(ExportSpecifier { local, exported })
    }

    /// The source of an import or export: a string literal.
    #[verifier::spinoff_prover]
    pub(crate) fn parse_module_specifier(&mut self) -> (r: Res<Literal>)
        requires
            old(self).inv(),
        ensures
            final(self).moved(*old(self), r is Ok),
            r matches Ok(l) ==> old(self).look_ahead.kind is Str && l == Literal::String(
                old(self).look_ahead.text,
            ),
            r is Ok <==> old(self).can_advance() && old(self).look_ahead.kind is Str,
    {
        let item = self.next_item()?;
        if item.is_string() {
            Ok(Literal::String(item.text))
        } else {
            self.expected_token_error(&item, &["[string]"])
        }
    }
}

} // verus!

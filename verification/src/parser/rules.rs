//! The parser's fixed rules: operator tables, precedences and the
//! predicates on trees that the grammar consults.
use vstd::prelude::*;
use crate::ast::{
    AssignmentOperator, BinaryOperator, Expr, FunctionArg, Literal, LogicalOperator, pat_name_is,
    Pat, PropertyKey, PropertyValue, UnaryOperator,
};
use crate::parser::{CommentHandler, Parser};
use crate::tokens::{str_eq, Keyword, Punct, TokItem, TokKind};

verus! {

/// The precedence of a binary punctuation mark; zero for the rest.
pub open spec fn punct_precedence(p: Punct) -> usize {
    if p == Punct::DoublePipe {
        1
    } else if p == Punct::DoubleAmpersand {
        2
    } else if p == Punct::Pipe {
        3
    } else if p == Punct::Caret {
        4
    } else if p == Punct::Ampersand {
        5
    } else if p == Punct::DoubleEqual || p == Punct::BangEqual || p == Punct::TripleEqual || p
        == Punct::BangDoubleEqual {
        6
    } else if p == Punct::GreaterThan || p == Punct::LessThan || p == Punct::LessThanEqual || p
        == Punct::GreaterThanEqual {
        7
    } else if p == Punct::DoubleLessThan || p == Punct::DoubleGreaterThan || p
        == Punct::TripleGreaterThan {
        8
    } else if p == Punct::Plus || p == Punct::Dash {
        9
    } else if p == Punct::Asterisk || p == Punct::ForwardSlash || p == Punct::Percent {
        11
    } else {
        0
    }
}

/// The precedence of a token as a binary operator: that of its punctuation,
/// 7 for `instanceof`, and for `in` where `in` is allowed; zero for the rest.
pub open spec fn token_precedence(t: TokItem, allow_in: bool) -> usize {
    match t.kind {
        TokKind::Punct(p) => punct_precedence(p),
        TokKind::Keyword(k) => if k == Keyword::InstanceOf || (allow_in && k == Keyword::In) {
            7
        } else {
            0
        },
        _ => 0,
    }
}

/// The unary operator a token stands for.
pub open spec fn spec_unary_operator(t: TokItem) -> Option<UnaryOperator> {
    match t.kind {
        TokKind::Punct(Punct::Dash) => Some(UnaryOperator::Minus),
        TokKind::Punct(Punct::Plus) => Some(UnaryOperator::Plus),
        TokKind::Punct(Punct::Bang) => Some(UnaryOperator::Not),
        TokKind::Punct(Punct::Tilde) => Some(UnaryOperator::Tilde),
        TokKind::Keyword(Keyword::TypeOf) => Some(UnaryOperator::TypeOf),
        TokKind::Keyword(Keyword::Void) => Some(UnaryOperator::Void),
        TokKind::Keyword(Keyword::Delete) => Some(UnaryOperator::Delete),
        _ => None,
    }
}

/// The binary operator a token stands for.
pub open spec fn spec_binary_operator(t: TokItem) -> Option<BinaryOperator> {
    match t.kind {
        TokKind::Keyword(k) => if k == Keyword::InstanceOf {
            Some(BinaryOperator::InstanceOf)
        } else if k == Keyword::In {
            Some(BinaryOperator::In)
        } else {
            None
        },
        TokKind::Punct(p) => if p == Punct::DoubleEqual {
            Some(BinaryOperator::Equal)
        } else if p == Punct::BangEqual {
            Some(BinaryOperator::NotEqual)
        } else if p == Punct::TripleEqual {
            Some(BinaryOperator::StrictEqual)
        } else if p == Punct::BangDoubleEqual {
            Some(BinaryOperator::StrictNotEqual)
        } else if p == Punct::LessThan {
            Some(BinaryOperator::LessThan)
        } else if p == Punct::LessThanEqual {
            Some(BinaryOperator::LessThanEqual)
        } else if p == Punct::GreaterThan {
            Some(BinaryOperator::GreaterThan)
        } else if p == Punct::GreaterThanEqual {
            Some(BinaryOperator::GreaterThanEqual)
        } else if p == Punct::DoubleLessThan {
            Some(BinaryOperator::LeftShift)
        } else if p == Punct::DoubleGreaterThan {
            Some(BinaryOperator::RightShift)
        } else if p == Punct::TripleGreaterThan {
            Some(BinaryOperator::UnsignedRightShift)
        } else if p == Punct::Plus {
            Some(BinaryOperator::Plus)
        } else if p == Punct::Dash {
            Some(BinaryOperator::Minus)
        } else if p == Punct::Asterisk {
            Some(BinaryOperator::Times)
        } else if p == Punct::ForwardSlash {
            Some(BinaryOperator::Over)
        } else if p == Punct::Percent {
            Some(BinaryOperator::Mod)
        } else if p == Punct::Ampersand {
            Some(BinaryOperator::And)
        } else if p == Punct::Pipe {
            Some(BinaryOperator::Or)
        } else if p == Punct::Caret {
            Some(BinaryOperator::XOr)
        } else {
            None
        },
        _ => None,
    }
}

/// A token with a binary precedence is a logical operator (`&&`, `||`) or
/// stands for a binary operator.
pub proof fn lemma_precedence_has_operator(t: TokItem, allow_in: bool)
    requires
        token_precedence(t, allow_in) > 0,
    ensures
        t.spec_is_punct(Punct::DoubleAmpersand) || t.spec_is_punct(Punct::DoublePipe)
            || spec_binary_operator(t) is Some,
{
}

impl<'a, CH: CommentHandler> Parser<'a, CH> {
    /// The precedence of a binary punctuation mark; zero for the rest.
    pub(crate) fn determine_precedence(p: Punct) -> (r: usize)
        ensures
            r == punct_precedence(p),
    {
        match p {
            Punct::DoublePipe => 1,
            Punct::DoubleAmpersand => 2,
            Punct::Pipe => 3,
            Punct::Caret => 4,
            Punct::Ampersand => 5,
            Punct::DoubleEqual | Punct::BangEqual | Punct::TripleEqual | Punct::BangDoubleEqual => 6,
            Punct::GreaterThan | Punct::LessThan | Punct::LessThanEqual | Punct::GreaterThanEqual => 7,
            Punct::DoubleLessThan | Punct::DoubleGreaterThan | Punct::TripleGreaterThan => 8,
            Punct::Plus | Punct::Dash => 9,
            Punct::Asterisk | Punct::ForwardSlash | Punct::Percent => 11,
            _ => 0,
        }
    }

    /// The precedence of a token as a binary operator here.
    pub(crate) fn bin_precedence(&self, tok: &TokItem) -> (r: usize)
        ensures
            r == token_precedence(*tok, self.context.allow_in),
    {
        match &tok.kind {
            TokKind::Punct(p) => Self::determine_precedence(*p),
            TokKind::Keyword(k) => {
                if *k == Keyword::InstanceOf || (self.context.allow_in && *k == Keyword::In) {
                    7
                } else {
                    0
                }
            },
            _ => 0,
        }
    }

    /// The binary operator a token stands for.
    pub(crate) fn binary_operator(t: &TokItem) -> (r: Option<BinaryOperator>)
        ensures
            r == spec_binary_operator(*t),
    {
        match &t.kind {
            TokKind::Keyword(k) => match k {
                Keyword::InstanceOf => Some(BinaryOperator::InstanceOf),
                Keyword::In => Some(BinaryOperator::In),
                _ => None,
            },
            TokKind::Punct(p) => match p {
                Punct::DoubleEqual => Some(BinaryOperator::Equal),
                Punct::BangEqual => Some(BinaryOperator::NotEqual),
                Punct::TripleEqual => Some(BinaryOperator::StrictEqual),
                Punct::BangDoubleEqual => Some(BinaryOperator::StrictNotEqual),
                Punct::LessThan => Some(BinaryOperator::LessThan),
                Punct::LessThanEqual => Some(BinaryOperator::LessThanEqual),
                Punct::GreaterThan => Some(BinaryOperator::GreaterThan),
                Punct::GreaterThanEqual => Some(BinaryOperator::GreaterThanEqual),
                Punct::DoubleLessThan => Some(BinaryOperator::LeftShift),
                Punct::DoubleGreaterThan => Some(BinaryOperator::RightShift),
                Punct::TripleGreaterThan => Some(BinaryOperator::UnsignedRightShift),
                Punct::Plus => Some(BinaryOperator::Plus),
                Punct::Dash => Some(BinaryOperator::Minus),
                Punct::Asterisk => Some(BinaryOperator::Times),
                Punct::ForwardSlash => Some(BinaryOperator::Over),
                Punct::Percent => Some(BinaryOperator::Mod),
                Punct::Ampersand => Some(BinaryOperator::And),
                Punct::Pipe => Some(BinaryOperator::Or),
                Punct::Caret => Some(BinaryOperator::XOr),
                _ => None,
            },
            _ => None,
        }
    }

    /// The logical operator a token stands for: `&&` or `||`.
    pub(crate) fn logical_operator(t: &TokItem) -> (r: Option<LogicalOperator>)
        ensures
            r == if t.spec_is_punct(Punct::DoubleAmpersand) {
                Some(LogicalOperator::And)
            } else if t.spec_is_punct(Punct::DoublePipe) {
                Some(LogicalOperator::Or)
            } else {
                None::<LogicalOperator>
            },
    {
        match &t.kind {
            TokKind::Punct(Punct::DoubleAmpersand) => Some(LogicalOperator::And),
            TokKind::Punct(Punct::DoublePipe) => Some(LogicalOperator::Or),
            _ => None,
        }
    }

    /// The unary operator a token stands for: `- + ! ~ typeof void delete`.
    pub(crate) fn unary_operator(t: &TokItem) -> (r: Option<UnaryOperator>)
        ensures
            r == spec_unary_operator(*t),
    {
        match &t.kind {
            TokKind::Punct(Punct::Dash) => Some(UnaryOperator::Minus),
            TokKind::Punct(Punct::Plus) => Some(UnaryOperator::Plus),
            TokKind::Punct(Punct::Bang) => Some(UnaryOperator::Not),
            TokKind::Punct(Punct::Tilde) => Some(UnaryOperator::Tilde),
            TokKind::Keyword(Keyword::TypeOf) => Some(UnaryOperator::TypeOf),
            TokKind::Keyword(Keyword::Void) => Some(UnaryOperator::Void),
            TokKind::Keyword(Keyword::Delete) => Some(UnaryOperator::Delete),
            _ => None,
        }
    }

    /// The assignment operator a punctuation mark stands for.
    pub(crate) fn assignment_operator(p: Punct) -> (r: Option<AssignmentOperator>)
        ensures
            r is Some <==> crate::parser::is_assign_punct(p),
            p == Punct::Equal ==> r == Some(AssignmentOperator::Equal),
            p == Punct::PlusEqual ==> r == Some(AssignmentOperator::PlusEqual),
            p == Punct::DashEqual ==> r == Some(AssignmentOperator::MinusEqual),
            p == Punct::AsteriskEqual ==> r == Some(AssignmentOperator::TimesEqual),
            p == Punct::ForwardSlashEqual ==> r == Some(AssignmentOperator::DivEqual),
            p == Punct::PercentEqual ==> r == Some(AssignmentOperator::ModEqual),
            p == Punct::DoubleLessThanEqual ==> r == Some(AssignmentOperator::LeftShiftEqual),
            p == Punct::DoubleGreaterThanEqual ==> r == Some(AssignmentOperator::RightShiftEqual),
            p == Punct::TripleGreaterThanEqual ==> r == Some(
                AssignmentOperator::UnsignedRightShiftEqual,
            ),
            p == Punct::PipeEqual ==> r == Some(AssignmentOperator::OrEqual),
            p == Punct::CaretEqual ==> r == Some(AssignmentOperator::XOrEqual),
            p == Punct::AmpersandEqual ==> r == Some(AssignmentOperator::AndEqual),
            p == Punct::DoubleAsteriskEqual ==> r == Some(AssignmentOperator::PowerOfEqual),
    {
        match p {
            Punct::Equal => Some(AssignmentOperator::Equal),
            Punct::PlusEqual => Some(AssignmentOperator::PlusEqual),
            Punct::DashEqual => Some(AssignmentOperator::MinusEqual),
            Punct::AsteriskEqual => Some(AssignmentOperator::TimesEqual),
            Punct::ForwardSlashEqual => Some(AssignmentOperator::DivEqual),
            Punct::PercentEqual => Some(AssignmentOperator::ModEqual),
            Punct::DoubleLessThanEqual => Some(AssignmentOperator::LeftShiftEqual),
            Punct::DoubleGreaterThanEqual => Some(AssignmentOperator::RightShiftEqual),
            Punct::TripleGreaterThanEqual => Some(AssignmentOperator::UnsignedRightShiftEqual),
            Punct::PipeEqual => Some(AssignmentOperator::OrEqual),
            Punct::CaretEqual => Some(AssignmentOperator::XOrEqual),
            Punct::AmpersandEqual => Some(AssignmentOperator::AndEqual),
            Punct::DoubleAsteriskEqual => Some(AssignmentOperator::PowerOfEqual),
            _ => None,
        }
    }

    /// `eval` and `arguments`, which strict mode code may not bind.
    pub(crate) fn is_restricted_word(word: &str) -> (r: bool)
        ensures
            r == (word@ == "eval"@ || word@ == "arguments"@),
    {
        str_eq(word, "eval") || str_eq(word, "arguments")
    }

    /// The words reserved in strict mode code.
    pub(crate) fn is_strict_reserved(word: &str) -> (r: bool)
        ensures
            r == (word@ == "implements"@ || word@ == "interface"@ || word@ == "package"@ || word@
                == "private"@ || word@ == "protected"@ || word@ == "public"@ || word@ == "static"@
                || word@ == "yield"@ || word@ == "let"@),
    {
        str_eq(word, "implements") || str_eq(word, "interface") || str_eq(word, "package")
            || str_eq(word, "private") || str_eq(word, "protected") || str_eq(word, "public")
            || str_eq(word, "static") || str_eq(word, "yield") || str_eq(word, "let")
    }

    /// An identifier expression.
    pub(crate) fn is_ident(expr: &Expr) -> (r: bool)
        ensures
            r == (*expr is Ident),
    {
        match expr {
            Expr::Ident(_) => true,
            _ => false,
        }
    }

    /// An identifier pattern.
    pub(crate) fn is_pat_ident(pat: &Pat) -> (r: bool)
        ensures
            r == (*pat is Identifier),
    {
        match pat {
            Pat::Identifier(_) => true,
            _ => false,
        }
    }

    /// An identifier pattern that binds `eval` or `arguments`.
    pub(crate) fn is_restricted(id: &Pat) -> (r: bool)
        ensures
            r == (pat_name_is(*id, "eval"@) || pat_name_is(*id, "arguments"@)),
    {
        match id {
            Pat::Identifier(i) => str_eq(i.as_str(), "eval") || str_eq(i.as_str(), "arguments"),
            _ => false,
        }
    }

    /// A parameter that is a plain name: an identifier pattern or
    /// expression.
    pub fn is_simple(arg: &FunctionArg) -> (r: bool)
        ensures
            r == (*arg matches FunctionArg::Pat(Pat::Identifier(_)) || *arg matches FunctionArg::Expr(
                Expr::Ident(_),
            )),
    {
        match arg {
            FunctionArg::Pat(p) => match p {
                Pat::Identifier(_) => true,
                _ => false,
            },
            FunctionArg::Expr(e) => match e {
                Expr::Ident(_) => true,
                _ => false,
            },
        }
    }

    /// A parameter with a default value.
    pub(crate) fn is_assignment(arg: &FunctionArg) -> (r: bool)
        ensures
            r == (*arg matches FunctionArg::Pat(Pat::Assignment(_)) || *arg matches FunctionArg::Expr(
                Expr::Assignment(_),
            )),
    {
        match arg {
            FunctionArg::Pat(p) => match p {
                Pat::Assignment(_) => true,
                _ => false,
            },
            FunctionArg::Expr(e) => match e {
                Expr::Assignment(_) => true,
                _ => false,
            },
        }
    }

    /// A parameter named `await`.
    pub(crate) fn is_await(arg: &FunctionArg) -> (r: bool)
        ensures
            r == match *arg {
                FunctionArg::Expr(Expr::Ident(i)) => i@ == "await"@,
                FunctionArg::Pat(Pat::Identifier(i)) => i@ == "await"@,
                _ => false,
            },
    {
        match arg {
            FunctionArg::Expr(e) => match e {
                Expr::Ident(i) => str_eq(i.as_str(), "await"),
                _ => false,
            },
            FunctionArg::Pat(p) => match p {
                Pat::Identifier(i) => str_eq(i.as_str(), "await"),
                _ => false,
            },
        }
    }

    /// A rest parameter: a spread expression or a rest pattern.
    pub(crate) fn is_rest(arg: &FunctionArg) -> (r: bool)
        ensures
            r == (*arg matches FunctionArg::Expr(Expr::Spread(_)) || *arg matches FunctionArg::Pat(
                Pat::RestElement(_),
            )),
    {
        match arg {
            FunctionArg::Expr(e) => match e {
                Expr::Spread(_) => true,
                _ => false,
            },
            FunctionArg::Pat(p) => match p {
                Pat::RestElement(_) => true,
                _ => false,
            },
        }
    }

    /// An async function, async arrow function or async arrow parameter
    /// list.
    pub(crate) fn is_async(expr: &Expr) -> (r: bool)
        ensures
            r == match *expr {
                Expr::Function(f) => f.is_async,
                Expr::ArrowFunction(f) => f.is_async,
                Expr::ArrowParamPlaceHolder(_, b) => b,
                _ => false,
            },
    {
        match expr {
            Expr::Function(f) => f.is_async,
            Expr::ArrowFunction(f) => f.is_async,
            Expr::ArrowParamPlaceHolder(_, b) => *b,
            _ => false,
        }
    }

    /// An arrow function's parameter list, not yet read as one.
    pub(crate) fn is_arrow_param_placeholder(expr: &Expr) -> (r: bool)
        ensures
            r == (*expr is ArrowParamPlaceHolder),
    {
        match expr {
            Expr::ArrowParamPlaceHolder(_, _) => true,
            _ => false,
        }
    }

    /// A property key that spells `other`: a string literal, an identifier
    /// expression or an identifier pattern.
    pub(crate) fn is_key(key: &PropertyKey, other: &str) -> (r: bool)
        ensures
            r == match *key {
                PropertyKey::Literal(Literal::String(s)) => s@ == other@,
                PropertyKey::Expr(Expr::Ident(s)) => s@ == other@,
                PropertyKey::Pat(Pat::Identifier(s)) => s@ == other@,
                _ => false,
            },
    {
        match key {
            PropertyKey::Literal(l) => match l {
                Literal::String(s) => str_eq(s.as_str(), other),
                _ => false,
            },
            PropertyKey::Expr(e) => match e {
                Expr::Ident(s) => str_eq(s.as_str(), other),
                _ => false,
            },
            PropertyKey::Pat(p) => match p {
                Pat::Identifier(s) => str_eq(s.as_str(), other),
                _ => false,
            },
        }
    }

    /// A property key that spells `static`.
    pub(crate) fn is_static(key: &PropertyKey) -> (r: bool)
        ensures
            r == match *key {
                PropertyKey::Literal(Literal::String(s)) => s@ == "static"@,
                PropertyKey::Expr(Expr::Ident(s)) => s@ == "static"@,
                PropertyKey::Pat(Pat::Identifier(s)) => s@ == "static"@,
                _ => false,
            },
    {
        Self::is_key(key, "static")
    }

    /// A property key that is the string literal `_proto_`.
    pub(crate) fn is_proto_(key: &PropertyKey) -> (r: bool)
        ensures
            r == (*key matches PropertyKey::Literal(Literal::String(s)) && s@ == "_proto_"@),
    {
        match key {
            PropertyKey::Literal(l) => match l {
                Literal::String(s) => str_eq(s.as_str(), "_proto_"),
                _ => false,
            },
            _ => false,
        }
    }

    /// A property value that is a generator function.
    pub(crate) fn is_generator(val: &PropertyValue) -> (r: bool)
        ensures
            r == match *val {
                PropertyValue::Expr(Expr::Function(f)) => f.generator,
                PropertyValue::Expr(Expr::ArrowFunction(f)) => f.generator,
                _ => false,
            },
    {
        match val {
            PropertyValue::Expr(e) => match e {
                Expr::Function(f) => f.generator,
                Expr::ArrowFunction(f) => f.generator,
                _ => false,
            },
            _ => false,
        }
    }

    /// A literal that may be a property key: a string, number or boolean.
    pub(crate) fn is_valid_property_key_literal(expr: &Expr) -> (r: bool)
        ensures
            r == (*expr matches Expr::Literal(l) && (l is String || l is Number || l is Boolean)),
    {
        match expr {
            Expr::Literal(l) => match l {
                Literal::String(_) | Literal::Number(_) | Literal::Boolean(_) => true,
                _ => false,
            },
            _ => false,
        }
    }

    /// A token that may name a property: an identifier, a keyword, a
    /// literal or `[`.
    pub(crate) fn qualified_prop_name(tok: &TokItem) -> (r: bool)
        ensures
            r == (tok.kind is Ident || tok.kind is Keyword || tok.spec_is_literal()
                || tok.spec_is_punct(Punct::OpenBracket)),
    {
        tok.is_ident() || tok.is_keyword() || tok.is_literal() || tok.matches_punct(
            Punct::OpenBracket,
        )
    }
}

} // verus!

//! The token model the parser reads: punctuation, keywords, and the
//! items of the token stream with their byte spans in the source text.
use vstd::prelude::*;

verus! {

/// Whether two strings are equal.
pub fn str_eq(a: &str, b: &str) -> (r: bool)
    ensures
        r == (a@ == b@),
{
    let x: String = a.to_owned();
    let y: String = b.to_owned();
    x == y
}

/// A punctuation mark of JavaScript.
#[derive(Clone, Copy, Debug, PartialEq, Eq, Structural)]
pub enum Punct {
    Ampersand,
    AmpersandEqual,
    Asterisk,
    AsteriskEqual,
    AtMark,
    Bang,
    BangDoubleEqual,
    BangEqual,
    Caret,
    CaretEqual,
    CloseBrace,
    CloseBracket,
    CloseParen,
    Colon,
    Comma,
    Dash,
    DoubleDash,
    DashEqual,
    DoubleAmpersand,
    DoubleAsterisk,
    DoubleAsteriskEqual,
    DoubleEqual,
    DoubleGreaterThan,
    DoubleGreaterThanEqual,
    DoubleLessThan,
    DoubleLessThanEqual,
    DoublePipe,
    DoublePlus,
    Ellipsis,
    Equal,
    EqualGreaterThan,
    ForwardSlash,
    ForwardSlashEqual,
    GreaterThan,
    GreaterThanEqual,
    Hash,
    LessThan,
    LessThanEqual,
    OpenBrace,
    OpenBracket,
    OpenParen,
    Percent,
    PercentEqual,
    Period,
    Pipe,
    PipeEqual,
    Plus,
    PlusEqual,
    QuestionMark,
    SemiColon,
    Tilde,
    TripleEqual,
    TripleGreaterThanEqual,
    TripleGreaterThan,
}

/// A reserved word of JavaScript.
#[derive(Clone, Copy, Debug, PartialEq, Eq, Structural)]
pub enum Keyword {
    Await,
    Break,
    Case,
    Catch,
    Class,
    Const,
    Continue,
    Debugger,
    Default,
    Delete,
    Do,
    Else,
    Enum,
    Export,
    Finally,
    For,
    Function,
    If,
    Implements,
    Import,
    In,
    InstanceOf,
    Interface,
    Let,
    New,
    Package,
    Private,
    Protected,
    Public,
    Return,
    Static,
    Super,
    Switch,
    This,
    Throw,
    Try,
    TypeOf,
    Var,
    Void,
    While,
    With,
    Yield,
}

/// The punctuation mark spelled by `s`, if any.
pub open spec fn spec_punct_of(s: Seq<char>) -> Option<Punct> {
    if s == "&"@ {
        Some(Punct::Ampersand)
    } else if s == "&="@ {
        Some(Punct::AmpersandEqual)
    } else if s == "*"@ {
        Some(Punct::Asterisk)
    } else if s == "*="@ {
        Some(Punct::AsteriskEqual)
    } else if s == "@"@ {
        Some(Punct::AtMark)
    } else if s == "!"@ {
        Some(Punct::Bang)
    } else if s == "!=="@ {
        Some(Punct::BangDoubleEqual)
    } else if s == "!="@ {
        Some(Punct::BangEqual)
    } else if s == "^"@ {
        Some(Punct::Caret)
    } else if s == "^="@ {
        Some(Punct::CaretEqual)
    } else if s == "}"@ {
        Some(Punct::CloseBrace)
    } else if s == "]"@ {
        Some(Punct::CloseBracket)
    } else if s == ")"@ {
        Some(Punct::CloseParen)
    } else if s == ":"@ {
        Some(Punct::Colon)
    } else if s == ","@ {
        Some(Punct::Comma)
    } else if s == "-"@ {
        Some(Punct::Dash)
    } else if s == "--"@ {
        Some(Punct::DoubleDash)
    } else if s == "-="@ {
        Some(Punct::DashEqual)
    } else if s == "&&"@ {
        Some(Punct::DoubleAmpersand)
    } else if s == "**"@ {
        Some(Punct::DoubleAsterisk)
    } else if s == "**="@ {
        Some(Punct::DoubleAsteriskEqual)
    } else if s == "=="@ {
        Some(Punct::DoubleEqual)
    } else if s == ">>"@ {
        Some(Punct::DoubleGreaterThan)
    } else if s == ">>="@ {
        Some(Punct::DoubleGreaterThanEqual)
    } else if s == "<<"@ {
        Some(Punct::DoubleLessThan)
    } else if s == "<<="@ {
        Some(Punct::DoubleLessThanEqual)
    } else if s == "||"@ {
        Some(Punct::DoublePipe)
    } else if s == "++"@ {
        Some(Punct::DoublePlus)
    } else if s == "..."@ {
        Some(Punct::Ellipsis)
    } else if s == "="@ {
        Some(Punct::Equal)
    } else if s == "=>"@ {
        Some(Punct::EqualGreaterThan)
    } else if s == "/"@ {
        Some(Punct::ForwardSlash)
    } else if s == "/="@ {
        Some(Punct::ForwardSlashEqual)
    } else if s == ">"@ {
        Some(Punct::GreaterThan)
    } else if s == ">="@ {
        Some(Punct::GreaterThanEqual)
    } else if s == "#"@ {
        Some(Punct::Hash)
    } else if s == "<"@ {
        Some(Punct::LessThan)
    } else if s == "<="@ {
        Some(Punct::LessThanEqual)
    } else if s == "{"@ {
        Some(Punct::OpenBrace)
    } else if s == "["@ {
        Some(Punct::OpenBracket)
    } else if s == "("@ {
        Some(Punct::OpenParen)
    } else if s == "%"@ {
        Some(Punct::Percent)
    } else if s == "%="@ {
        Some(Punct::PercentEqual)
    } else if s == "."@ {
        Some(Punct::Period)
    } else if s == "|"@ {
        Some(Punct::Pipe)
    } else if s == "|="@ {
        Some(Punct::PipeEqual)
    } else if s == "+"@ {
        Some(Punct::Plus)
    } else if s == "+="@ {
        Some(Punct::PlusEqual)
    } else if s == "?"@ {
        Some(Punct::QuestionMark)
    } else if s == ";"@ {
        Some(Punct::SemiColon)
    } else if s == "~"@ {
        Some(Punct::Tilde)
    } else if s == "==="@ {
        Some(Punct::TripleEqual)
    } else if s == ">>>="@ {
        Some(Punct::TripleGreaterThanEqual)
    } else if s == ">>>"@ {
        Some(Punct::TripleGreaterThan)
    } else {
        None
    }
}

/// The reserved word spelled by `s`, if any.
pub open spec fn spec_keyword_of(s: Seq<char>) -> Option<Keyword> {
    if s == "await"@ {
        Some(Keyword::Await)
    } else if s == "break"@ {
        Some(Keyword::Break)
    } else if s == "case"@ {
        Some(Keyword::Case)
    } else if s == "catch"@ {
        Some(Keyword::Catch)
    } else if s == "class"@ {
        Some(Keyword::Class)
    } else if s == "const"@ {
        Some(Keyword::Const)
    } else if s == "continue"@ {
        Some(Keyword::Continue)
    } else if s == "debugger"@ {
        Some(Keyword::Debugger)
    } else if s == "default"@ {
        Some(Keyword::Default)
    } else if s == "delete"@ {
        Some(Keyword::Delete)
    } else if s == "do"@ {
        Some(Keyword::Do)
    } else if s == "else"@ {
        Some(Keyword::Else)
    } else if s == "enum"@ {
        Some(Keyword::Enum)
    } else if s == "export"@ {
        Some(Keyword::Export)
    } else if s == "finally"@ {
        Some(Keyword::Finally)
    } else if s == "for"@ {
        Some(Keyword::For)
    } else if s == "function"@ {
        Some(Keyword::Function)
    } else if s == "if"@ {
        Some(Keyword::If)
    } else if s == "implements"@ {
        Some(Keyword::Implements)
    } else if s == "import"@ {
        Some(Keyword::Import)
    } else if s == "in"@ {
        Some(Keyword::In)
    } else if s == "instanceof"@ {
        Some(Keyword::InstanceOf)
    } else if s == "interface"@ {
        Some(Keyword::Interface)
    } else if s == "let"@ {
        Some(Keyword::Let)
    } else if s == "new"@ {
        Some(Keyword::New)
    } else if s == "package"@ {
        Some(Keyword::Package)
    } else if s == "private"@ {
        Some(Keyword::Private)
    } else if s == "protected"@ {
        Some(Keyword::Protected)
    } else if s == "public"@ {
        Some(Keyword::Public)
    } else if s == "return"@ {
        Some(Keyword::Return)
    } else if s == "static"@ {
        Some(Keyword::Static)
    } else if s == "super"@ {
        Some(Keyword::Super)
    } else if s == "switch"@ {
        Some(Keyword::Switch)
    } else if s == "this"@ {
        Some(Keyword::This)
    } else if s == "throw"@ {
        Some(Keyword::Throw)
    } else if s == "try"@ {
        Some(Keyword::Try)
    } else if s == "typeof"@ {
        Some(Keyword::TypeOf)
    } else if s == "var"@ {
        Some(Keyword::Var)
    } else if s == "void"@ {
        Some(Keyword::Void)
    } else if s == "while"@ {
        Some(Keyword::While)
    } else if s == "with"@ {
        Some(Keyword::With)
    } else if s == "yield"@ {
        Some(Keyword::Yield)
    } else {
        None
    }
}

/// Classify the text of a punctuation token.
pub fn punct_of(s: &str) -> (r: Option<Punct>)
    ensures
        r == spec_punct_of(s@),
{
    if str_eq(s, "&") {
        Some(Punct::Ampersand)
    } else if str_eq(s, "&=") {
        Some(Punct::AmpersandEqual)
    } else if str_eq(s, "*") {
        Some(Punct::Asterisk)
    } else if str_eq(s, "*=") {
        Some(Punct::AsteriskEqual)
    } else if str_eq(s, "@") {
        Some(Punct::AtMark)
    } else if str_eq(s, "!") {
        Some(Punct::Bang)
    } else if str_eq(s, "!==") {
        Some(Punct::BangDoubleEqual)
    } else if str_eq(s, "!=") {
        Some(Punct::BangEqual)
    } else if str_eq(s, "^") {
        Some(Punct::Caret)
    } else if str_eq(s, "^=") {
        Some(Punct::CaretEqual)
    } else if str_eq(s, "}") {
        Some(Punct::CloseBrace)
    } else if str_eq(s, "]") {
        Some(Punct::CloseBracket)
    } else if str_eq(s, ")") {
        Some(Punct::CloseParen)
    } else if str_eq(s, ":") {
        Some(Punct::Colon)
    } else if str_eq(s, ",") {
        Some(Punct::Comma)
    } else if str_eq(s, "-") {
        Some(Punct::Dash)
    } else if str_eq(s, "--") {
        Some(Punct::DoubleDash)
    } else if str_eq(s, "-=") {
        Some(Punct::DashEqual)
    } else if str_eq(s, "&&") {
        Some(Punct::DoubleAmpersand)
    } else if str_eq(s, "**") {
        Some(Punct::DoubleAsterisk)
    } else if str_eq(s, "**=") {
        Some(Punct::DoubleAsteriskEqual)
    } else if str_eq(s, "==") {
        Some(Punct::DoubleEqual)
    } else if str_eq(s, ">>") {
        Some(Punct::DoubleGreaterThan)
    } else if str_eq(s, ">>=") {
        Some(Punct::DoubleGreaterThanEqual)
    } else if str_eq(s, "<<") {
        Some(Punct::DoubleLessThan)
    } else if str_eq(s, "<<=") {
        Some(Punct::DoubleLessThanEqual)
    } else if str_eq(s, "||") {
        Some(Punct::DoublePipe)
    } else if str_eq(s, "++") {
        Some(Punct::DoublePlus)
    } else if str_eq(s, "...") {
        Some(Punct::Ellipsis)
    } else if str_eq(s, "=") {
        Some(Punct::Equal)
    } else if str_eq(s, "=>") {
        Some(Punct::EqualGreaterThan)
    } else if str_eq(s, "/") {
        Some(Punct::ForwardSlash)
    } else if str_eq(s, "/=") {
        Some(Punct::ForwardSlashEqual)
    } else if str_eq(s, ">") {
        Some(Punct::GreaterThan)
    } else if str_eq(s, ">=") {
        Some(Punct::GreaterThanEqual)
    } else if str_eq(s, "#") {
        Some(Punct::Hash)
    } else if str_eq(s, "<") {
        Some(Punct::LessThan)
    } else if str_eq(s, "<=") {
        Some(Punct::LessThanEqual)
    } else if str_eq(s, "{") {
        Some(Punct::OpenBrace)
    } else if str_eq(s, "[") {
        Some(Punct::OpenBracket)
    } else if str_eq(s, "(") {
        Some(Punct::OpenParen)
    } else if str_eq(s, "%") {
        Some(Punct::Percent)
    } else if str_eq(s, "%=") {
        Some(Punct::PercentEqual)
    } else if str_eq(s, ".") {
        Some(Punct::Period)
    } else if str_eq(s, "|") {
        Some(Punct::Pipe)
    } else if str_eq(s, "|=") {
        Some(Punct::PipeEqual)
    } else if str_eq(s, "+") {
        Some(Punct::Plus)
    } else if str_eq(s, "+=") {
        Some(Punct::PlusEqual)
    } else if str_eq(s, "?") {
        Some(Punct::QuestionMark)
    } else if str_eq(s, ";") {
        Some(Punct::SemiColon)
    } else if str_eq(s, "~") {
        Some(Punct::Tilde)
    } else if str_eq(s, "===") {
        Some(Punct::TripleEqual)
    } else if str_eq(s, ">>>=") {
        Some(Punct::TripleGreaterThanEqual)
    } else if str_eq(s, ">>>") {
        Some(Punct::TripleGreaterThan)
    } else {
        None
    }
}

/// Classify the text of a keyword token.
pub fn keyword_of(s: &str) -> (r: Option<Keyword>)
    ensures
        r == spec_keyword_of(s@),
{
    if str_eq(s, "await") {
        Some(Keyword::Await)
    } else if str_eq(s, "break") {
        Some(Keyword::Break)
    } else if str_eq(s, "case") {
        Some(Keyword::Case)
    } else if str_eq(s, "catch") {
        Some(Keyword::Catch)
    } else if str_eq(s, "class") {
        Some(Keyword::Class)
    } else if str_eq(s, "const") {
        Some(Keyword::Const)
    } else if str_eq(s, "continue") {
        Some(Keyword::Continue)
    } else if str_eq(s, "debugger") {
        Some(Keyword::Debugger)
    } else if str_eq(s, "default") {
        Some(Keyword::Default)
    } else if str_eq(s, "delete") {
        Some(Keyword::Delete)
    } else if str_eq(s, "do") {
        Some(Keyword::Do)
    } else if str_eq(s, "else") {
        Some(Keyword::Else)
    } else if str_eq(s, "enum") {
        Some(Keyword::Enum)
    } else if str_eq(s, "export") {
        Some(Keyword::Export)
    } else if str_eq(s, "finally") {
        Some(Keyword::Finally)
    } else if str_eq(s, "for") {
        Some(Keyword::For)
    } else if str_eq(s, "function") {
        Some(Keyword::Function)
    } else if str_eq(s, "if") {
        Some(Keyword::If)
    } else if str_eq(s, "implements") {
        Some(Keyword::Implements)
    } else if str_eq(s, "import") {
        Some(Keyword::Import)
    } else if str_eq(s, "in") {
        Some(Keyword::In)
    } else if str_eq(s, "instanceof") {
        Some(Keyword::InstanceOf)
    } else if str_eq(s, "interface") {
        Some(Keyword::Interface)
    } else if str_eq(s, "let") {
        Some(Keyword::Let)
    } else if str_eq(s, "new") {
        Some(Keyword::New)
    } else if str_eq(s, "package") {
        Some(Keyword::Package)
    } else if str_eq(s, "private") {
        Some(Keyword::Private)
    } else if str_eq(s, "protected") {
        Some(Keyword::Protected)
    } else if str_eq(s, "public") {
        Some(Keyword::Public)
    } else if str_eq(s, "return") {
        Some(Keyword::Return)
    } else if str_eq(s, "static") {
        Some(Keyword::Static)
    } else if str_eq(s, "super") {
        Some(Keyword::Super)
    } else if str_eq(s, "switch") {
        Some(Keyword::Switch)
    } else if str_eq(s, "this") {
        Some(Keyword::This)
    } else if str_eq(s, "throw") {
        Some(Keyword::Throw)
    } else if str_eq(s, "try") {
        Some(Keyword::Try)
    } else if str_eq(s, "typeof") {
        Some(Keyword::TypeOf)
    } else if str_eq(s, "var") {
        Some(Keyword::Var)
    } else if str_eq(s, "void") {
        Some(Keyword::Void)
    } else if str_eq(s, "while") {
        Some(Keyword::While)
    } else if str_eq(s, "with") {
        Some(Keyword::With)
    } else if str_eq(s, "yield") {
        Some(Keyword::Yield)
    } else {
        None
    }
}

/// Which part of a template literal a template token is.
#[derive(Clone, Copy, Debug, PartialEq, Eq, Structural)]
pub enum TemplatePart {
    /// `` `...` `` with no substitution
    NoSub,
    /// `` `...${ ``
    Head,
    /// `}...${`
    Middle,
    /// `` }...` ``
    Tail,
}

/// The kind of a token, with what the parser reads of it.
#[derive(Clone, Debug, PartialEq, Eq)]
pub enum TokKind {
    Boolean(bool),
    EoF,
    Ident,
    Keyword(Keyword),
    Null,
    Number,
    Punct(Punct),
    Str,
    RegEx { body: String, flags: Option<String> },
    Template(TemplatePart, String),
    Comment,
}

/// The start and end byte index of a token in the source text.
#[derive(Clone, Copy, Debug, PartialEq, Eq, Structural)]
pub struct Span {
    pub start: usize,
    pub end: usize,
}

/// A single token of the stream: its kind, its span, the source text
/// of that span, and whether a line terminator follows it before the
/// next token.
#[derive(Clone, Debug, PartialEq, Eq)]
pub struct TokItem {
    pub kind: TokKind,
    pub span: Span,
    pub text: String,
    pub nl_after: bool,
    /// How the scanner prints the token, for messages
    pub debug: String,
}

impl TokItem {
    pub open spec fn spec_is_punct(&self, p: Punct) -> bool {
        self.kind == TokKind::Punct(p)
    }

    pub open spec fn spec_is_keyword(&self, k: Keyword) -> bool {
        self.kind == TokKind::Keyword(k)
    }

    /// Whether this token is the punctuation mark `p`.
    pub fn matches_punct(&self, p: Punct) -> (r: bool)
        ensures
            r == self.spec_is_punct(p),
    {
        match &self.kind {
            TokKind::Punct(q) => *q == p,
            _ => false,
        }
    }

    /// Whether this token is the keyword `k`.
    pub fn matches_keyword(&self, k: Keyword) -> (r: bool)
        ensures
            r == self.spec_is_keyword(k),
    {
        match &self.kind {
            TokKind::Keyword(q) => *q == k,
            _ => false,
        }
    }

    pub fn is_ident(&self) -> (r: bool)
        ensures
            r == (self.kind is Ident),
    {
        match &self.kind {
            TokKind::Ident => true,
            _ => false,
        }
    }

    pub fn is_keyword(&self) -> (r: bool)
        ensures
            r == (self.kind is Keyword),
    {
        match &self.kind {
            TokKind::Keyword(_) => true,
            _ => false,
        }
    }

    pub fn is_punct(&self) -> (r: bool)
        ensures
            r == (self.kind is Punct),
    {
        match &self.kind {
            TokKind::Punct(_) => true,
            _ => false,
        }
    }

    pub fn is_eof(&self) -> (r: bool)
        ensures
            r == (self.kind is EoF),
    {
        match &self.kind {
            TokKind::EoF => true,
            _ => false,
        }
    }

    pub fn is_string(&self) -> (r: bool)
        ensures
            r == (self.kind is Str),
    {
        match &self.kind {
            TokKind::Str => true,
            _ => false,
        }
    }

    pub fn is_number(&self) -> (r: bool)
        ensures
            r == (self.kind is Number),
    {
        match &self.kind {
            TokKind::Number => true,
            _ => false,
        }
    }

    pub fn is_boolean(&self) -> (r: bool)
        ensures
            r == (self.kind is Boolean),
    {
        match &self.kind {
            TokKind::Boolean(_) => true,
            _ => false,
        }
    }

    pub fn is_null(&self) -> (r: bool)
        ensures
            r == (self.kind is Null),
    {
        match &self.kind {
            TokKind::Null => true,
            _ => false,
        }
    }

    pub fn is_regex(&self) -> (r: bool)
        ensures
            r == (self.kind is RegEx),
    {
        match &self.kind {
            TokKind::RegEx { .. } => true,
            _ => false,
        }
    }

    pub fn is_comment(&self) -> (r: bool)
        ensures
            r == (self.kind is Comment),
    {
        match &self.kind {
            TokKind::Comment => true,
            _ => false,
        }
    }

    /// Any part of a template literal.
    pub fn is_template(&self) -> (r: bool)
        ensures
            r == (self.kind is Template),
    {
        match &self.kind {
            TokKind::Template(..) => true,
            _ => false,
        }
    }

    pub open spec fn spec_is_template_head(&self) -> bool {
        self.kind matches TokKind::Template(p, _) && (p == TemplatePart::Head || p == TemplatePart::NoSub)
    }

    /// The first part of a template literal: a head or a template
    /// with no substitution.
    pub fn is_template_head(&self) -> (r: bool)
        ensures
            r == self.spec_is_template_head(),
    {
        match &self.kind {
            TokKind::Template(TemplatePart::Head, _) => true,
            TokKind::Template(TemplatePart::NoSub, _) => true,
            _ => false,
        }
    }

    pub open spec fn spec_is_literal(&self) -> bool {
        ||| self.kind is Boolean
        ||| self.kind is Str
        ||| self.kind is Null
        ||| self.kind is Number
        ||| self.kind is RegEx
        ||| self.kind is Template
    }

    /// A literal: boolean, string, null, number, regular expression or
    /// template.
    pub fn is_literal(&self) -> (r: bool)
        ensures
            r == self.spec_is_literal(),
    {
        match &self.kind {
            TokKind::Boolean(_) => true,
            TokKind::Str => true,
            TokKind::Null => true,
            TokKind::Number => true,
            TokKind::RegEx { .. } => true,
            TokKind::Template(..) => true,
            _ => false,
        }
    }

    pub open spec fn spec_is_restricted(&self) -> bool {
        self.kind is Ident && (self.text@ == "eval"@ || self.text@ == "arguments"@)
    }

    /// An identifier that is `eval` or `arguments`.
    pub fn is_restricted(&self) -> (r: bool)
        ensures
            r == self.spec_is_restricted(),
    {
        self.is_ident() && (str_eq(self.text.as_str(), "eval") || str_eq(
            self.text.as_str(),
            "arguments",
        ))
    }

    pub open spec fn spec_is_strict_reserved(&self) -> bool {
        match self.kind {
            TokKind::Keyword(k) => k.spec_is_strict_reserved(),
            _ => false,
        }
    }

    /// A keyword that is reserved in strict mode code.
    pub fn is_strict_reserved(&self) -> (r: bool)
        ensures
            r == self.spec_is_strict_reserved(),
    {
        match &self.kind {
            TokKind::Keyword(k) => k.is_strict_reserved(),
            _ => false,
        }
    }
}

impl TokKind {
    /// An equal copy.
    pub fn copy(&self) -> (r: TokKind)
        ensures
            r == *self,
    {
        match self {
            TokKind::Boolean(b) => TokKind::Boolean(*b),
            TokKind::EoF => TokKind::EoF,
            TokKind::Ident => TokKind::Ident,
            TokKind::Keyword(k) => TokKind::Keyword(*k),
            TokKind::Null => TokKind::Null,
            TokKind::Number => TokKind::Number,
            TokKind::Punct(p) => TokKind::Punct(*p),
            TokKind::Str => TokKind::Str,
            TokKind::RegEx { body, flags } => {
                let f = match flags {
                    Some(f) => Some(f.clone()),
                    None => None,
                };
                TokKind::RegEx { body: body.clone(), flags: f }
            },
            TokKind::Template(t, c) => TokKind::Template(*t, c.clone()),
            TokKind::Comment => TokKind::Comment,
        }
    }
}

impl TokItem {
    /// An equal copy.
    pub fn copy(&self) -> (r: TokItem)
        ensures
            r == *self,
    {
        TokItem {
            kind: self.kind.copy(),
            span: self.span,
            text: self.text.clone(),
            nl_after: self.nl_after,
            debug: self.debug.clone(),
        }
    }
}

impl Keyword {
    pub open spec fn spec_is_strict_reserved(self) -> bool {
        ||| self == Keyword::Implements
        ||| self == Keyword::Interface
        ||| self == Keyword::Package
        ||| self == Keyword::Private
        ||| self == Keyword::Protected
        ||| self == Keyword::Public
        ||| self == Keyword::Static
        ||| self == Keyword::Yield
        ||| self == Keyword::Let
    }

    /// Whether this keyword is reserved in strict mode code.
    pub fn is_strict_reserved(self) -> (r: bool)
        ensures
            r == self.spec_is_strict_reserved(),
    {
        match self {
            Keyword::Implements | Keyword::Interface | Keyword::Package | Keyword::Private
            | Keyword::Protected | Keyword::Public | Keyword::Static | Keyword::Yield
            | Keyword::Let => true,
            _ => false,
        }
    }
}

/// The name of a punctuation mark variant, as it reads in messages: the variant's
/// own name.
pub open spec fn spec_punct_name(x: Punct) -> &'static str {
    match x {
        Punct::Ampersand => "Ampersand",
        Punct::AmpersandEqual => "AmpersandEqual",
        Punct::Asterisk => "Asterisk",
        Punct::AsteriskEqual => "AsteriskEqual",
        Punct::AtMark => "AtMark",
        Punct::Bang => "Bang",
        Punct::BangDoubleEqual => "BangDoubleEqual",
        Punct::BangEqual => "BangEqual",
        Punct::Caret => "Caret",
        Punct::CaretEqual => "CaretEqual",
        Punct::CloseBrace => "CloseBrace",
        Punct::CloseBracket => "CloseBracket",
        Punct::CloseParen => "CloseParen",
        Punct::Colon => "Colon",
        Punct::Comma => "Comma",
        Punct::Dash => "Dash",
        Punct::DoubleDash => "DoubleDash",
        Punct::DashEqual => "DashEqual",
        Punct::DoubleAmpersand => "DoubleAmpersand",
        Punct::DoubleAsterisk => "DoubleAsterisk",
        Punct::DoubleAsteriskEqual => "DoubleAsteriskEqual",
        Punct::DoubleEqual => "DoubleEqual",
        Punct::DoubleGreaterThan => "DoubleGreaterThan",
        Punct::DoubleGreaterThanEqual => "DoubleGreaterThanEqual",
        Punct::DoubleLessThan => "DoubleLessThan",
        Punct::DoubleLessThanEqual => "DoubleLessThanEqual",
        Punct::DoublePipe => "DoublePipe",
        Punct::DoublePlus => "DoublePlus",
        Punct::Ellipsis => "Ellipsis",
        Punct::Equal => "Equal",
        Punct::EqualGreaterThan => "EqualGreaterThan",
        Punct::ForwardSlash => "ForwardSlash",
        Punct::ForwardSlashEqual => "ForwardSlashEqual",
        Punct::GreaterThan => "GreaterThan",
        Punct::GreaterThanEqual => "GreaterThanEqual",
        Punct::Hash => "Hash",
        Punct::LessThan => "LessThan",
        Punct::LessThanEqual => "LessThanEqual",
        Punct::OpenBrace => "OpenBrace",
        Punct::OpenBracket => "OpenBracket",
        Punct::OpenParen => "OpenParen",
        Punct::Percent => "Percent",
        Punct::PercentEqual => "PercentEqual",
        Punct::Period => "Period",
        Punct::Pipe => "Pipe",
        Punct::PipeEqual => "PipeEqual",
        Punct::Plus => "Plus",
        Punct::PlusEqual => "PlusEqual",
        Punct::QuestionMark => "QuestionMark",
        Punct::SemiColon => "SemiColon",
        Punct::Tilde => "Tilde",
        Punct::TripleEqual => "TripleEqual",
        Punct::TripleGreaterThanEqual => "TripleGreaterThanEqual",
        Punct::TripleGreaterThan => "TripleGreaterThan",
    }
}

/// The name of a punctuation mark, as it reads in messages.
pub(crate) fn punct_name(x: Punct) -> (r: &'static str)
    ensures
        r == spec_punct_name(x),
{
    match x {
        Punct::Ampersand => "Ampersand",
        Punct::AmpersandEqual => "AmpersandEqual",
        Punct::Asterisk => "Asterisk",
        Punct::AsteriskEqual => "AsteriskEqual",
        Punct::AtMark => "AtMark",
        Punct::Bang => "Bang",
        Punct::BangDoubleEqual => "BangDoubleEqual",
        Punct::BangEqual => "BangEqual",
        Punct::Caret => "Caret",
        Punct::CaretEqual => "CaretEqual",
        Punct::CloseBrace => "CloseBrace",
        Punct::CloseBracket => "CloseBracket",
        Punct::CloseParen => "CloseParen",
        Punct::Colon => "Colon",
        Punct::Comma => "Comma",
        Punct::Dash => "Dash",
        Punct::DoubleDash => "DoubleDash",
        Punct::DashEqual => "DashEqual",
        Punct::DoubleAmpersand => "DoubleAmpersand",
        Punct::DoubleAsterisk => "DoubleAsterisk",
        Punct::DoubleAsteriskEqual => "DoubleAsteriskEqual",
        Punct::DoubleEqual => "DoubleEqual",
        Punct::DoubleGreaterThan => "DoubleGreaterThan",
        Punct::DoubleGreaterThanEqual => "DoubleGreaterThanEqual",
        Punct::DoubleLessThan => "DoubleLessThan",
        Punct::DoubleLessThanEqual => "DoubleLessThanEqual",
        Punct::DoublePipe => "DoublePipe",
        Punct::DoublePlus => "DoublePlus",
        Punct::Ellipsis => "Ellipsis",
        Punct::Equal => "Equal",
        Punct::EqualGreaterThan => "EqualGreaterThan",
        Punct::ForwardSlash => "ForwardSlash",
        Punct::ForwardSlashEqual => "ForwardSlashEqual",
        Punct::GreaterThan => "GreaterThan",
        Punct::GreaterThanEqual => "GreaterThanEqual",
        Punct::Hash => "Hash",
        Punct::LessThan => "LessThan",
        Punct::LessThanEqual => "LessThanEqual",
        Punct::OpenBrace => "OpenBrace",
        Punct::OpenBracket => "OpenBracket",
        Punct::OpenParen => "OpenParen",
        Punct::Percent => "Percent",
        Punct::PercentEqual => "PercentEqual",
        Punct::Period => "Period",
        Punct::Pipe => "Pipe",
        Punct::PipeEqual => "PipeEqual",
        Punct::Plus => "Plus",
        Punct::PlusEqual => "PlusEqual",
        Punct::QuestionMark => "QuestionMark",
        Punct::SemiColon => "SemiColon",
        Punct::Tilde => "Tilde",
        Punct::TripleEqual => "TripleEqual",
        Punct::TripleGreaterThanEqual => "TripleGreaterThanEqual",
        Punct::TripleGreaterThan => "TripleGreaterThan",
    }
}

/// The name of a keyword variant, as it reads in messages: the variant's
/// own name.
pub open spec fn spec_keyword_name(x: Keyword) -> &'static str {
    match x {
        Keyword::Await => "Await",
        Keyword::Break => "Break",
        Keyword::Case => "Case",
        Keyword::Catch => "Catch",
        Keyword::Class => "Class",
        Keyword::Const => "Const",
        Keyword::Continue => "Continue",
        Keyword::Debugger => "Debugger",
        Keyword::Default => "Default",
        Keyword::Delete => "Delete",
        Keyword::Do => "Do",
        Keyword::Else => "Else",
        Keyword::Enum => "Enum",
        Keyword::Export => "Export",
        Keyword::Finally => "Finally",
        Keyword::For => "For",
        Keyword::Function => "Function",
        Keyword::If => "If",
        Keyword::Implements => "Implements",
        Keyword::Import => "Import",
        Keyword::In => "In",
        Keyword::InstanceOf => "InstanceOf",
        Keyword::Interface => "Interface",
        Keyword::Let => "Let",
        Keyword::New => "New",
        Keyword::Package => "Package",
        Keyword::Private => "Private",
        Keyword::Protected => "Protected",
        Keyword::Public => "Public",
        Keyword::Return => "Return",
        Keyword::Static => "Static",
        Keyword::Super => "Super",
        Keyword::Switch => "Switch",
        Keyword::This => "This",
        Keyword::Throw => "Throw",
        Keyword::Try => "Try",
        Keyword::TypeOf => "TypeOf",
        Keyword::Var => "Var",
        Keyword::Void => "Void",
        Keyword::While => "While",
        Keyword::With => "With",
        Keyword::Yield => "Yield",
    }
}

/// The name of a keyword variant, as it reads in messages.
pub(crate) fn keyword_name(x: Keyword) -> (r: &'static str)
    ensures
        r == spec_keyword_name(x),
{
    match x {
        Keyword::Await => "Await",
        Keyword::Break => "Break",
        Keyword::Case => "Case",
        Keyword::Catch => "Catch",
        Keyword::Class => "Class",
        Keyword::Const => "Const",
        Keyword::Continue => "Continue",
        Keyword::Debugger => "Debugger",
        Keyword::Default => "Default",
        Keyword::Delete => "Delete",
        Keyword::Do => "Do",
        Keyword::Else => "Else",
        Keyword::Enum => "Enum",
        Keyword::Export => "Export",
        Keyword::Finally => "Finally",
        Keyword::For => "For",
        Keyword::Function => "Function",
        Keyword::If => "If",
        Keyword::Implements => "Implements",
        Keyword::Import => "Import",
        Keyword::In => "In",
        Keyword::InstanceOf => "InstanceOf",
        Keyword::Interface => "Interface",
        Keyword::Let => "Let",
        Keyword::New => "New",
        Keyword::Package => "Package",
        Keyword::Private => "Private",
        Keyword::Protected => "Protected",
        Keyword::Public => "Public",
        Keyword::Return => "Return",
        Keyword::Static => "Static",
        Keyword::Super => "Super",
        Keyword::Switch => "Switch",
        Keyword::This => "This",
        Keyword::Throw => "Throw",
        Keyword::Try => "Try",
        Keyword::TypeOf => "TypeOf",
        Keyword::Var => "Var",
        Keyword::Void => "Void",
        Keyword::While => "While",
        Keyword::With => "With",
        Keyword::Yield => "Yield",
    }
}

} // verus!

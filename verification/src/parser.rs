//! The parser: its state, its view of the token stream, and the helpers
//! that the grammar functions share.
use vstd::prelude::*;
use vstd::string::{StringExecFns, StringSliceAdditionalSpecFns};
use vstd::utf8::is_char_boundary;
use crate::ast::{parts_of, Expr, Literal, Program, ProgramPart, Stmt};
use crate::error::ParseError;
use crate::labels::LabelSet;
use crate::lines::{
    after_last_lf, after_last_lf_in, count_crlf, count_crlf_in, count_terms, count_terms_in,
    ends_sorted, ends_with_term, ends_with_term_in, get_lines, line_of, position_in, spec_lines,
    spec_position, Line, Position,
};
use crate::scan::{
    item_in, lemma_scans_agree, same_stream, same_token, scan_cap, scan_refused, scans, spans_ordered, stream_of, text_get, tokenize, ScanFailure,
};
use crate::tokens::{keyword_name, punct_name, str_eq, Keyword, Punct, Span, TokItem, TokKind};

mod decl;
mod expr;
pub mod module;
mod pat;
pub(crate) mod primary;
pub mod rules;
mod stmt;

verus! {

/// The result type of the parser's operations.
pub type Res<T> = Result<T, ParseError>;

/// The configuration options given by the user.
pub struct Config {
    /// whether or not to tolerate a subset of errors
    pub tolerant: bool,
    /// whether the text is a module rather than a script
    pub is_module: bool,
}

impl Default for Config {
    fn default() -> (r: Self)
        ensures
            !r.tolerant,
            !r.is_module,
    {
        Config { tolerant: false, is_module: false }
    }
}

/// What the parser knows of the text before the current token.
pub struct Context {
    /// whether `in` may be a binary operator here
    pub allow_in: bool,
    /// whether a `'use strict'` directive may stand here
    pub allow_strict_directive: bool,
    /// whether `yield` may be an identifier here
    pub allow_yield: bool,
    /// whether `await` is an operator here
    pub allow_await: bool,
    /// where an initialized shorthand property was seen
    pub first_covert_initialized_name_error: Option<Span>,
    /// whether the current expression may be assigned to
    pub is_assignment_target: bool,
    /// whether the current expression may be a binding element
    pub is_binding_element: bool,
    /// inside a function body
    pub in_function_body: bool,
    /// inside a loop
    pub in_iteration: bool,
    /// inside a switch block
    pub in_switch: bool,
    /// the labels in scope
    pub label_set: LabelSet,
    /// inside strict mode code
    pub strict: bool,
    /// the directive prologue is over
    pub past_prolog: bool,
}

impl Default for Context {
    fn default() -> (r: Self)
        ensures
            !r.allow_await,
            r.allow_in,
            r.allow_strict_directive,
            r.allow_yield,
            r.first_covert_initialized_name_error is None,
            !r.is_assignment_target,
            !r.is_binding_element,
            !r.in_function_body,
            !r.in_iteration,
            !r.in_switch,
            forall|s: Seq<char>| !r.label_set.contains(s),
            !r.strict,
            !r.past_prolog,
    {
        Context {
            allow_await: false,
            allow_in: true,
            allow_strict_directive: true,
            allow_yield: true,
            first_covert_initialized_name_error: None,
            is_assignment_target: false,
            is_binding_element: false,
            in_function_body: false,
            in_iteration: false,
            in_switch: false,
            label_set: LabelSet::new(),
            strict: false,
            past_prolog: false,
        }
    }
}

/// Receives the comments of the text as the parser passes them.
pub trait CommentHandler {
    fn handle_comment(&mut self, comment: TokItem);
}

/// Drops every comment.
pub struct DefaultCommentHandler;

impl CommentHandler for DefaultCommentHandler {
    fn handle_comment(&mut self, comment: TokItem) {
    }
}

/// One step of the scanner.
pub enum ScanStep {
    Item(TokItem),
    Failed(ScanFailure),
    Done,
}

/// What the parser reads and never changes: the text, its lines, and its
/// tokens as the scanner gave them.
pub struct Input<'a> {
    /// The text being parsed
    pub(crate) source: &'a str,
    /// The indexes that each line starts/ends at
    pub(crate) lines: Vec<Line>,
    /// The tokens of the text, comments included, as the scanner gave them
    pub(crate) stream: Vec<TokItem>,
    /// The scanner's failure, where it stopped before the end of the text
    pub(crate) scan_failure: Option<ScanFailure>,
}

/// Parses JavaScript text into program parts.  It reads the token stream
/// of the text as the `ress` scanner produces it, with that scanner's
/// flags: whether it reached the end of the text, whether it failed, and
/// whether a line terminator follows the last token it returned.
pub struct Parser<'a, CH: CommentHandler> {
    /// The current parsing context
    pub(crate) context: Context,
    /// The configuration provided by the user
    pub(crate) config: Config,
    /// The text, its lines and its tokens
    pub(crate) input: Input<'a>,
    /// The index of the next token the scanner hands out
    pub(crate) cursor: usize,
    /// The scanner has handed out the end of the text
    pub(crate) scanner_eof: bool,
    /// The scanner has reported its failure
    pub(crate) scanner_errored: bool,
    /// A line terminator follows the token the scanner handed out last
    pub(crate) pending_new_line: bool,
    /// A line terminator stands before the look-ahead token
    pub(crate) has_line_term: bool,
    /// The next item
    pub(crate) look_ahead: TokItem,
    /// The end of the text has been handed out
    pub(crate) found_eof: bool,
    /// The position of the token handed out last
    pub(crate) current_position: Position,
    /// The position of the look-ahead token
    pub(crate) look_ahead_position: Position,
    /// Receives the comments
    pub(crate) comment_handler: CH,
    /// If we encounter an error, the iterator should stop
    pub(crate) errored: bool,
}

/// The items of `v` in the opposite order.
pub fn reversed<T>(v: Vec<T>) -> (r: Vec<T>)
    ensures
        r@ =~= v@.reverse(),
{
    let ghost orig = v@;
    let mut src = v;
    let mut out: Vec<T> = Vec::new();
    while src.len() > 0
        invariant
            src@ == orig.subrange(0, src@.len() as int),
            src@.len() <= orig.len(),
            out@ =~= orig.subrange(src@.len() as int, orig.len() as int).reverse(),
        decreases src.len(),
    {
        let ghost n = src@.len();
        match src.pop() {
            Some(x) => {
                out.push(x);
                proof {
                    assert(out@ =~= orig.subrange(n - 1, orig.len() as int).reverse());
                }
            },
            None => {},
        }
    }
    proof {
        assert(orig.subrange(0, orig.len() as int) =~= orig);
    }
    out
}

/// The index of the first token at or after `i` that is not a comment, or
/// the length of the stream when there is none.
pub open spec fn next_real(stream: Seq<TokItem>, i: int) -> int
    decreases stream.len() - i,
{
    if i >= stream.len() || i < 0 {
        stream.len() as int
    } else if stream[i].kind is Comment {
        next_real(stream, i + 1)
    } else {
        i
    }
}

/// Reading the first token of the stream `s`, which ended with `f`,
/// succeeds: a token that is no comment is there, or the scan reached the
/// end of the text.
pub open spec fn first_read_ok(s: Seq<TokItem>, f: Option<ScanFailure>) -> bool {
    next_real(s, 0) < s.len() || f is None
}

/// Streams alike token by token skip their comments alike.
pub proof fn lemma_next_real_same(s1: Seq<TokItem>, s2: Seq<TokItem>, i: int)
    requires
        same_stream(s1, s2),
    ensures
        next_real(s1, i) == next_real(s2, i),
    decreases s1.len() - i,
{
    if 0 <= i < s1.len() {
        assert(same_token(s1[i], s2[i]));
        lemma_next_real_same(s1, s2, i + 1);
    }
}

/// A text has one token stream, so every parser over it reads its first
/// token alike: where two scans of the text give the streams `s1` and
/// `s2`, ending with `f1` and `f2`, the streams agree token by token and
/// the first read succeeds on both or on neither.
pub proof fn lemma_text_reads_alike(
    text: &str,
    s1: Seq<TokItem>,
    f1: Option<ScanFailure>,
    s2: Seq<TokItem>,
    f2: Option<ScanFailure>,
)
    requires
        scans(text@, text.spec_bytes(), s1, f1),
        scans(text@, text.spec_bytes(), s2, f2),
    ensures
        same_stream(s1, s2),
        first_read_ok(s1, f1) == first_read_ok(s2, f2),
{
    let b = text.spec_bytes();
    lemma_scans_agree(text@, b, 0, 0, scan_cap(b), s1, f1, s2, f2);
    lemma_next_real_same(s1, s2, 0);
}

/// A token that carries an operand on: a member access, a call, an index,
/// a template, an update operator or `**`.
pub open spec fn continues(t: TokItem) -> bool {
    ||| t.spec_is_punct(Punct::Period)
    ||| t.spec_is_punct(Punct::OpenParen)
    ||| t.spec_is_punct(Punct::OpenBracket)
    ||| t.spec_is_punct(Punct::DoublePlus)
    ||| t.spec_is_punct(Punct::DoubleDash)
    ||| t.spec_is_punct(Punct::DoubleAsterisk)
    ||| t.kind is Template
}

/// A token after an operand that ends the assignment expression it
/// starts, where `in` is a binary operator exactly when `allow_in` holds.
pub open spec fn ends_operand(t: TokItem, allow_in: bool) -> bool {
    &&& !continues(t)
    &&& crate::parser::rules::token_precedence(t, allow_in) == 0
    &&& !t.spec_is_punct(Punct::QuestionMark)
    &&& !(t.kind matches TokKind::Punct(p) && is_assign_punct(p))
    &&& !t.spec_is_punct(Punct::EqualGreaterThan)
}

/// A token that ends an assignment expression: `;`, `,`, `)`, `]`, `}`, or
/// the end of the text.
pub open spec fn closes(t: TokItem) -> bool {
    ||| t.spec_is_punct(Punct::SemiColon)
    ||| t.spec_is_punct(Punct::Comma)
    ||| t.spec_is_punct(Punct::CloseParen)
    ||| t.spec_is_punct(Punct::CloseBracket)
    ||| t.spec_is_punct(Punct::CloseBrace)
    ||| t.kind is EoF
}

/// A token that ends a statement without a `;`: `}` or the end of the
/// text.
pub open spec fn ends_statement(t: TokItem) -> bool {
    t.spec_is_punct(Punct::CloseBrace) || t.kind is EoF
}

/// A token that is a whole expression by itself, spelled other than
/// `async`: a name, a number, a string, `null`, a boolean, or `this`.
pub open spec fn simple_token(t: TokItem) -> bool {
    &&& t.text@ != "async"@
    &&& {
        ||| t.kind is Ident
        ||| t.kind is Number
        ||| t.kind is Str
        ||| t.kind is Null
        ||| t.kind is Boolean
        ||| t.spec_is_keyword(Keyword::This)
    }
}

/// The expression that a token which is a whole expression stands for: the
/// name, the literal with the token's text or value, or `this`.
pub open spec fn simple_tree(t: TokItem) -> Expr {
    match t.kind {
        TokKind::Ident => Expr::Ident(t.text),
        TokKind::Number => Expr::Literal(Literal::Number(t.text)),
        TokKind::Str => Expr::Literal(Literal::String(t.text)),
        TokKind::Null => Expr::Literal(Literal::Null),
        TokKind::Boolean(b) => Expr::Literal(Literal::Boolean(b)),
        _ => Expr::This,
    }
}

/// Reading the next token succeeds, for a parser whose stream is `stream`
/// and cursor `cursor`, whose scanner is `live` and has `failed` or not at
/// the end of the stream, and whose look-ahead is `look_ahead`: a token
/// that is no comment is left in the stream, or else the stream ends with
/// no scanner failure and the end of the text stands in the look-ahead and
/// has not been handed out yet.
#[verifier::opaque]
pub open spec fn advance_ok(
    stream: Seq<TokItem>,
    cursor: int,
    live: bool,
    failed: bool,
    look_ahead: TokItem,
    found_eof: bool,
) -> bool {
    if live && next_real(stream, cursor) < stream.len() {
        true
    } else if live && failed {
        false
    } else {
        look_ahead.kind is EoF && !found_eof
    }
}

/// The index of the `n`-th token at or after `c` that is no comment,
/// counted from zero.
pub open spec fn real_index(stream: Seq<TokItem>, c: int, n: nat) -> int
    decreases n,
{
    if n == 0 {
        next_real(stream, c)
    } else {
        next_real(stream, real_index(stream, c, (n - 1) as nat) + 1)
    }
}

/// The `n`-th token that is no comment at or after `c`, counted from zero.
pub open spec fn ahead_at(stream: Seq<TokItem>, c: int, n: nat) -> TokItem {
    stream[real_index(stream, c, n)]
}

/// From cursor `c`, with a scanner that is `live` or not, the next `n`
/// reads succeed: where there is one read the scanner still hands tokens
/// out, the first `n` tokens at or after `c` that are no comments are
/// there, and all but the last of them are not the end of the text.
pub open spec fn can_read_at(stream: Seq<TokItem>, c: int, live: bool, n: nat) -> bool {
    &&& (n > 0 ==> live)
    &&& forall|m: nat| m < n ==> real_index(stream, c, m) < stream.len()
    &&& forall|m: nat| m + 1 < n ==> !((#[trigger] ahead_at(stream, c, m)).kind is EoF)
}

/// Counting the tokens that are no comment from just after the first of
/// them skips that first one.
pub proof fn lemma_real_index_shift(stream: Seq<TokItem>, c: int, n: nat)
    ensures
        real_index(stream, next_real(stream, c) + 1, n) == real_index(stream, c, n + 1),
    decreases n,
{
    let c1 = next_real(stream, c) + 1;
    assert(real_index(stream, c, 1) == next_real(stream, real_index(stream, c, 0) + 1));
    if n > 0 {
        lemma_real_index_shift(stream, c, (n - 1) as nat);
        assert(real_index(stream, c1, n) == next_real(stream, real_index(stream, c1, (n - 1) as nat) + 1));
        assert(real_index(stream, c, n + 1) == next_real(stream, real_index(stream, c, n) + 1));
    }
}

/// Every token of the stream, and the look-ahead token, lie in the text
/// `b`, in order; the look-ahead token is no comment, and ends before the
/// tokens from `cursor` on start.
#[verifier::opaque]
pub open spec fn tokens_in(stream: Seq<TokItem>, look_ahead: TokItem, cursor: int, b: Seq<u8>) -> bool {
    &&& stream_of(stream, b)
    &&& spans_ordered(stream)
    &&& item_in(look_ahead, b)
    &&& !(look_ahead.kind is Comment)
    &&& forall|k: int| cursor <= k < stream.len() ==> look_ahead.span.end <= #[trigger] stream[k].span.start
}

/// `a + b`, or the largest `usize` where the sum does not fit.
pub open spec fn sat_add(a: usize, b: int) -> usize {
    if a + b > usize::MAX {
        usize::MAX
    } else {
        (a + b) as usize
    }
}

/// `a - b`, or zero where `b` is larger.
pub open spec fn sat_sub(a: int, b: int) -> int {
    if a < b {
        0
    } else {
        a - b
    }
}

/// The position of the token that starts at `next`, given the position
/// `pos` of the token whose span is `span`: the line moves on by the line
/// terminators between the two tokens (a carriage return, line feed pair
/// after the first token counts once), and the column is the length of
/// the last line of that text.
#[verifier::opaque]
pub open spec fn advance_position(pos: Position, b: Seq<u8>, span: Span, next: int) -> Position {
    let lo = span.start as int;
    let n = sat_sub(
        count_terms(b, lo, next) as int,
        count_crlf(b, span.end as int, next) as int,
    );
    if n == 0 {
        Position { line: pos.line, column: sat_add(pos.column, next - lo) }
    } else {
        Position {
            line: sat_add(pos.line, n),
            column: if ends_with_term(b, lo, next) {
                0
            } else {
                (next - after_last_lf(b, lo, next)) as usize
            },
        }
    }
}

impl<'a, CH: CommentHandler> Parser<'a, CH> {
    /// The parser is well formed: its cursor lies in the token stream,
    /// the stream and the look-ahead token come from its text, the look-ahead
    /// is no comment, and it has at least one line.
    pub(crate) open spec fn inv(&self) -> bool {
        &&& self.cursor <= self.input.stream.len()
        &&& self.input.lines.len() > 0
        &&& tokens_in(self.input.stream@, self.look_ahead, self.cursor as int, self.input.source.spec_bytes())
    }

    /// How much input is left: two for each token still in the stream, and
    /// one until the end of the text has been handed out.
    pub(crate) open spec fn rank(&self) -> nat {
        (2 * (self.input.stream.len() - self.cursor) + if self.found_eof {
            0int
        } else {
            1int
        }) as nat
    }

    /// The same text, stream, lines and configuration as `old`.
    pub(crate) open spec fn same_input(&self, old: Self) -> bool {
        &&& self.input == old.input
        &&& self.config == old.config
    }

    /// A step from `old` that read no input back.
    pub(crate) open spec fn stepped(&self, old: Self) -> bool {
        &&& self.inv()
        &&& self.same_input(old)
        &&& self.rank() <= old.rank()
        &&& self.errored == old.errored
    }

    /// A step from `old` that consumed input.
    pub(crate) open spec fn advanced(&self, old: Self) -> bool {
        &&& self.stepped(old)
        &&& self.rank() < old.rank()
    }

    /// A step from `old` that changed the context alone, and none of the
    /// cover grammar flags that `stepped` follows.
    pub(crate) open spec fn only_context(&self, old: Self) -> bool {
        &&& self.stepped(old)
        &&& self.rank() == old.rank()
        &&& self.look_ahead == old.look_ahead
        &&& self.has_line_term == old.has_line_term
        &&& self.cursor == old.cursor
        &&& self.found_eof == old.found_eof
        &&& self.scanner_eof == old.scanner_eof
        &&& self.scanner_errored == old.scanner_errored
        &&& self.pending_new_line == old.pending_new_line
    }

    /// A step from `old` that consumed input where `ok` holds.
    pub(crate) open spec fn moved(&self, old: Self, ok: bool) -> bool {
        &&& self.stepped(old)
        &&& (ok ==> self.rank() < old.rank())
    }

    /// The parser is well formed.
    pub closed spec fn wf(&self) -> bool {
        self.inv()
    }

    /// The text being parsed.
    pub closed spec fn text(&self) -> &'a str {
        self.input.source
    }

    /// Whether errors that the parser can tolerate are tolerated.
    pub closed spec fn is_tolerant(&self) -> bool {
        self.config.tolerant
    }

    /// Whether the text is parsed as a module.
    pub closed spec fn is_module(&self) -> bool {
        self.config.is_module
    }

    /// The lines of the text.
    pub closed spec fn line_table(&self) -> Seq<Line> {
        self.input.lines@
    }

    /// The token stream of the text, comments included.
    pub closed spec fn tokens(&self) -> Seq<TokItem> {
        self.input.stream@
    }

    /// The parser hands out no more parts: it has reached the end of the
    /// text or an error.
    pub closed spec fn is_done(&self) -> bool {
        self.look_ahead.kind is EoF || self.errored
    }

    /// The directive prologue is over: a part that is no directive has
    /// been handed out.  Directives come only before it.
    pub closed spec fn past_prologue(&self) -> bool {
        self.context.past_prolog
    }

    /// The code being read is strict mode code.
    pub closed spec fn is_strict(&self) -> bool {
        self.context.strict
    }

    /// An error has stopped the parser.
    pub closed spec fn is_errored(&self) -> bool {
        self.errored
    }

    /// The parser stands at the end of the text.
    pub closed spec fn at_end(&self) -> bool {
        self.look_ahead.kind is EoF
    }

    /// The part that `next` hands out, where the look-ahead is one token
    /// that is a whole expression, no string, followed by `;`, `}` or the
    /// end of the text, and the parser is not done: that expression as a
    /// statement.
    pub closed spec fn simple_part(&self) -> Option<ProgramPart> {
        if !self.is_done() && self.simple_ahead() && !(self.look_ahead.kind is Str) && (ends_statement(
            self.next_token(),
        ) || self.semi_simple_ahead()) {
            Some(ProgramPart::Stmt(Stmt::Expr(simple_tree(self.look_ahead))))
        } else {
            None
        }
    }

    /// The text left is that one part, and then its end.
    pub closed spec fn simple_last(&self) -> bool {
        self.simple_part() is Some && self.next_token().kind is EoF
    }

    /// The parser is done exactly when it stands at the end of the text or
    /// an error has stopped it.
    pub proof fn lemma_done(&self)
        ensures
            self.is_done() == (self.at_end() || self.is_errored()),
    {
    }

    /// How much input is left.
    pub closed spec fn remaining(&self) -> nat {
        self.rank()
    }

    /// The scanner's `next`: the next token of the stream; nothing once the
    /// scanner has passed the end of the text or failed; the scanner's
    /// failure once the stream is spent.
    fn scan_next(&mut self) -> (r: ScanStep)
        requires
            old(self).inv(),
        ensures
            old(self).scanner_eof || old(self).scanner_errored ==> r is Done && *final(self)
                == *old(self),
            !(old(self).scanner_eof || old(self).scanner_errored) && old(self).cursor
                < old(self).input.stream.len() ==> r == ScanStep::Item(old(self).input.stream@[old(self).cursor as int])
                && *final(self) == (Parser {
                cursor: (old(self).cursor + 1) as usize,
                pending_new_line: old(self).input.stream@[old(self).cursor as int].nl_after,
                scanner_eof: old(self).input.stream@[old(self).cursor as int].kind is EoF,
                ..*old(self)
            }),
            !(old(self).scanner_eof || old(self).scanner_errored) && old(self).cursor
                == old(self).input.stream.len() ==> match old(self).input.scan_failure {
                Some(f) => r == ScanStep::Failed(f) && *final(self) == (Parser {
                    scanner_errored: true,
                    ..*old(self)
                }),
                None => r is Done && *final(self) == *old(self),
            },
    {
        if self.scanner_eof || self.scanner_errored {
            return ScanStep::Done;
        }
        if self.cursor < self.input.stream.len() {
            let it = self.input.stream[self.cursor].copy();
            self.cursor = self.cursor + 1;
            self.pending_new_line = it.nl_after;
            self.scanner_eof = it.is_eof();
            ScanStep::Item(it)
        } else {
            match &self.input.scan_failure {
                Some(f) => {
                    let f2 = ScanFailure { line: f.line, column: f.column, msg: f.msg.clone() };
                    self.scanner_errored = true;
                    ScanStep::Failed(f2)
                },
                None => ScanStep::Done,
            }
        }
    }
}

impl<'a, CH: CommentHandler> Parser<'a, CH> {
    /// The scanner's `look_ahead`: the next token of the stream, comments
    /// included, without moving past it.  As the scanner does, it clears the
    /// pending line terminator, marks the end of the text once that is what
    /// it saw, and marks a failure once the stream is spent.
    fn look_ahead_raw(&mut self) -> (r: Option<TokItem>)
        requires
            old(self).inv(),
        ensures
            old(self).scanner_eof || old(self).scanner_errored ==> r is None && *final(self)
                == *old(self),
            !(old(self).scanner_eof || old(self).scanner_errored) && old(self).cursor
                < old(self).input.stream.len() ==> r == Some(old(self).input.stream@[old(self).cursor as int])
                && *final(self) == (Parser {
                pending_new_line: false,
                scanner_eof: old(self).input.stream@[old(self).cursor as int].kind is EoF,
                ..*old(self)
            }),
            !(old(self).scanner_eof || old(self).scanner_errored) && old(self).cursor
                == old(self).input.stream.len() ==> r is None && *final(self) == (Parser {
                scanner_errored: old(self).input.scan_failure is Some,
                ..*old(self)
            }),
    {
        if self.scanner_eof || self.scanner_errored {
            return None;
        }
        if self.cursor < self.input.stream.len() {
            let it = self.input.stream[self.cursor].copy();
            self.pending_new_line = false;
            self.scanner_eof = it.is_eof();
            Some(it)
        } else {
            if self.input.scan_failure.is_some() {
                self.scanner_errored = true;
            }
            None
        }
    }

    /// The first token that is no comment, read by skipping the comments
    /// and taking the next token, after which the scanner's cursor is put
    /// back.  The scanner's flags keep what the reading did to them: the
    /// pending line terminator is that of the last token read, and reading
    /// the end of the text, or a failure, marks the scanner so.  The end of
    /// the text and a failure give `None`.
    fn peek_past_comments(&mut self) -> (r: Option<TokItem>)
        requires
            old(self).inv(),
        ensures
            final(self).stepped(*old(self)),
            final(self).cursor == old(self).cursor,
            final(self).found_eof == old(self).found_eof,
            final(self).context == old(self).context,
            final(self).look_ahead == old(self).look_ahead,
            final(self).has_line_term == old(self).has_line_term,
            old(self).scanner_eof || old(self).scanner_errored ==> r is None,
            r matches Some(it) ==> it == old(self).input.stream@[next_real(
                old(self).input.stream@,
                old(self).cursor as int,
            )] && !(it.kind is EoF) && !(it.kind is Comment),
            !(old(self).scanner_eof || old(self).scanner_errored) && next_real(
                old(self).input.stream@,
                old(self).cursor as int,
            ) < old(self).input.stream.len() && !(old(self).input.stream@[next_real(
                old(self).input.stream@,
                old(self).cursor as int,
            )].kind is EoF) ==> r is Some,
    {
        proof {
            reveal(tokens_in);
        }
        let start = self.cursor;
        let ghost s0 = *self;
        let mut found = false;
        let mut failed = false;
        while !found && !failed
            invariant
                self.inv(),
                self.same_input(s0),
                self.found_eof == s0.found_eof,
                self.context == s0.context,
                self.look_ahead == s0.look_ahead,
                self.has_line_term == s0.has_line_term,
                self.errored == s0.errored,
                start == s0.cursor,
                start <= self.cursor <= self.input.stream.len(),
                s0.scanner_eof || s0.scanner_errored ==> self.scanner_eof || self.scanner_errored,
                !found && !failed ==> self.scanner_eof == s0.scanner_eof && self.scanner_errored == s0.scanner_errored,
                failed ==> !found && (s0.scanner_eof || s0.scanner_errored || self.cursor == self.input.stream.len()),
                !found ==> forall|k: int| start <= k < self.cursor ==> (#[trigger] self.input.stream@[k]).kind is Comment,
                !found && !(s0.scanner_eof || s0.scanner_errored) ==> next_real(self.input.stream@, start as int) == next_real(self.input.stream@, self.cursor as int),
                s0.scanner_eof || s0.scanner_errored ==> !found,
                found ==> self.cursor > start && !(self.input.stream@[self.cursor - 1].kind is Comment)
                    && next_real(self.input.stream@, start as int) == self.cursor - 1,
            decreases self.input.stream.len() - self.cursor, if found || failed { 0int } else { 1int },
        {
            proof {
                reveal(tokens_in);
            }
            match self.scan_next() {
                ScanStep::Item(it) => {
                    if it.is_comment() {
                    } else {
                        found = true;
                    }
                },
                _ => {
                    failed = true;
                },
            }
        }
        let mut ret: Option<TokItem> = None;
        if found {
            let last = self.cursor - 1;
            if !self.input.stream[last].is_eof() {
                ret = Some(self.input.stream[last].copy());
            }
        }
        self.cursor = start;
        ret
    }
}

impl<'a, CH: CommentHandler> Parser<'a, CH> {
    /// Move the positions on to the token that starts at `next`, coming
    /// from the look-ahead token whose span is `span`: the current position
    /// becomes the look-ahead position, and the look-ahead position moves
    /// over the text between the two tokens.  The text must run in order
    /// from `span` to `next`.
    fn update_positions(&mut self, span: Span, next: usize) -> (r: Res<()>)
        ensures
            r is Ok <==> (span.start <= next && span.end <= next && next
                <= old(self).input.source.spec_bytes().len()),
            r is Ok ==> *final(self) == (Parser {
                current_position: old(self).look_ahead_position,
                look_ahead_position: advance_position(
                    old(self).look_ahead_position,
                    old(self).input.source.spec_bytes(),
                    span,
                    next as int,
                ),
                ..*old(self)
            }),
            r is Err ==> *final(self) == *old(self),
            r matches Err(e) ==> e matches ParseError::OperationError(p, _) && p
                == old(self).current_position,
    {
        proof {
            reveal(advance_position);
        }
        let b = self.input.source.as_bytes();
        if !(span.start <= next && span.end <= next && next <= b.len()) {
            return Err(self.op_error("token spans out of order"));
        }
        let old_pos = self.look_ahead_position;
        self.current_position = old_pos;
        let terms = count_terms_in(b, span.start, next);
        let pairs = count_crlf_in(b, span.end, next);
        let line_counts = terms.saturating_sub(pairs);
        if line_counts == 0 {
            self.look_ahead_position.column = old_pos.column.saturating_add(next - span.start);
            return Ok(());
        }
        let last_line_len = if ends_with_term_in(b, span.start, next) {
            0
        } else {
            next - after_last_lf_in(b, span.start, next)
        };
        self.look_ahead_position.line = old_pos.line.saturating_add(line_counts);
        self.look_ahead_position.column = last_line_len;
        Ok(())
    }

    /// Whether the scanner still hands out tokens.
    pub(crate) open spec fn live(&self) -> bool {
        !(self.scanner_eof || self.scanner_errored)
    }

    /// Reading the next token succeeds.
    pub(crate) open spec fn can_advance(&self) -> bool {
        advance_ok(
            self.input.stream@,
            self.cursor as int,
            self.live(),
            self.input.scan_failure is Some,
            self.look_ahead,
            self.found_eof,
        )
    }

    /// After a read from `old`, the look-ahead of `new` is the first token
    /// of the stream at or after the cursor of `old` that is no comment,
    /// where there is one and the scanner still hands tokens out.
    #[verifier::opaque]
    pub(crate) open spec fn reads_next(old: Self, new: Self) -> bool {
        old.live() && next_real(old.input.stream@, old.cursor as int) < old.input.stream.len()
            ==> new.look_ahead == old.input.stream@[next_real(old.input.stream@, old.cursor as int)]
            && new.has_line_term == (if next_real(old.input.stream@, old.cursor as int) > old.cursor {
            old.input.stream@[next_real(old.input.stream@, old.cursor as int) - 1].nl_after
        } else {
            old.pending_new_line
        }) && new.cursor == next_real(old.input.stream@, old.cursor as int) + 1 && new.found_eof
            == old.found_eof && (new.live() <==> !(old.input.stream@[next_real(
            old.input.stream@,
            old.cursor as int,
        )].kind is EoF))
    }

    /// A token that is a whole operand stands at the look-ahead, reading it
    /// succeeds, and the token after it does not carry the operand on (and
    /// is no `n` that would make a number a big integer).
    pub(crate) open spec fn atom_ahead(&self) -> bool {
        &&& simple_token(self.look_ahead)
        &&& self.can_advance()
        &&& !continues(self.next_token())
        &&& self.next_token().text@ != "n"@
    }

    /// A token that is a whole assignment expression stands at the
    /// look-ahead, reading it succeeds, and the token after it ends the
    /// expression: it carries no operand on, and is no binary operator (as
    /// `in` is read here or not), no `?`, no assignment operator and no `=>`.
    pub(crate) open spec fn simple_ahead(&self) -> bool {
        &&& self.atom_ahead()
        &&& ends_operand(self.next_token(), self.context.allow_in)
    }

    /// A token that is a whole expression stands at the look-ahead, a `;`
    /// follows it, and the two reads over both succeed.
    pub(crate) open spec fn semi_simple_ahead(&self) -> bool {
        &&& self.simple_ahead()
        &&& self.next_token().spec_is_punct(Punct::SemiColon)
        &&& self.can_read(2)
    }

    /// The token that a read brings into the look-ahead: the first one at or
    /// after the cursor that is no comment.
    pub(crate) open spec fn next_token(&self) -> TokItem {
        self.input.stream@[next_real(self.input.stream@, self.cursor as int)]
    }

    /// The `n`-th token after the look-ahead that is no comment, counted
    /// from zero: the one the `n + 1`-th read brings in.
    pub(crate) open spec fn ahead(&self, n: nat) -> TokItem {
        ahead_at(self.input.stream@, self.cursor as int, n)
    }

    /// The next `n` reads succeed and each brings in a token of the stream:
    /// the scanner still hands tokens out where there is one read, the first
    /// `n` tokens after the
    /// look-ahead that are no comments are there, and all but the last of
    /// them are not the end of the text.
    pub(crate) open spec fn can_read(&self, n: nat) -> bool {
        can_read_at(self.input.stream@, self.cursor as int, self.live(), n)
    }

    /// `new` stands `n` reads after `old`: where `old` can read `k + n`
    /// more times, `new` can read `k` more times, and the tokens ahead of
    /// `new` are those of `old` from the `n`-th on.
    pub(crate) open spec fn reads_from(old: Self, new: Self, n: nat) -> bool {
        &&& new.input == old.input
        &&& forall|k: nat| old.can_read(k + n) ==> #[trigger] can_read_at(
            new.input.stream@,
            new.cursor as int,
            new.live(),
            k,
        )
        &&& forall|m: nat| #[trigger] ahead_at(new.input.stream@, new.cursor as int, m) == old.ahead(m + n)
    }

    /// One successful read from a parser that can read once moves it on by
    /// one read.
    pub(crate) proof fn lemma_read_one(old: Self, new: Self)
        requires
            old.can_read(1),
            Self::reads_next(old, new),
            new.input == old.input,
        ensures
            Self::reads_from(old, new, 1),
            new.look_ahead == old.ahead(0),
    {
        Self::lemma_read_step(old, new, 0);
        assert forall|k: nat| old.can_read(k + 1) implies #[trigger] can_read_at(
            new.input.stream@,
            new.cursor as int,
            new.live(),
            k,
        ) by {
            Self::lemma_read_step(old, new, k);
        }
        assert forall|m: nat| #[trigger] ahead_at(new.input.stream@, new.cursor as int, m) == old.ahead(m + 1) by {
            assert(new.ahead(m) == old.ahead(m + 1));
        }
    }

    /// A step that changes neither the stream, the cursor nor the scanner's
    /// flags moves on by no read.
    pub(crate) proof fn lemma_reads_same(a: Self, b: Self)
        requires
            b.input == a.input,
            b.cursor == a.cursor,
            b.scanner_eof == a.scanner_eof,
            b.scanner_errored == a.scanner_errored,
        ensures
            Self::reads_from(a, b, 0),
    {
        assert forall|k: nat| a.can_read(k + 0) implies #[trigger] can_read_at(
            b.input.stream@,
            b.cursor as int,
            b.live(),
            k,
        ) by {
            assert(k + 0 == k);
        }
        assert forall|m: nat| #[trigger] ahead_at(b.input.stream@, b.cursor as int, m) == a.ahead(m + 0) by {
            assert(m + 0 == m);
        }
    }

    /// Moving on by `n` reads and then by `m` moves on by `n + m`.
    pub(crate) proof fn lemma_reads_compose(a: Self, b: Self, c: Self, n: nat, m: nat)
        requires
            Self::reads_from(a, b, n),
            Self::reads_from(b, c, m),
        ensures
            Self::reads_from(a, c, n + m),
    {
        assert forall|k: nat| a.can_read(k + (n + m)) implies #[trigger] can_read_at(
            c.input.stream@,
            c.cursor as int,
            c.live(),
            k,
        ) by {
            assert(k + (n + m) == (k + m) + n);
            assert(b.can_read(k + m));
            assert(c.can_read(k));
        }
        assert forall|j: nat| #[trigger] ahead_at(c.input.stream@, c.cursor as int, j) == a.ahead(j + (n + m)) by {
            assert(c.ahead(j) == b.ahead(j + m));
            assert(b.ahead(j + m) == a.ahead((j + m) + n));
            assert((j + m) + n == j + (n + m));
        }
    }

    /// `new` stands one read after `old`, and its look-ahead is the token
    /// that the read brought in.
    pub(crate) open spec fn read_once(old: Self, new: Self) -> bool {
        &&& new.look_ahead == old.next_token()
        &&& Self::reads_from(old, new, 1)
    }

    /// A read between two states, each of which differs from another only
    /// in what the read does not look at, is a read between those others.
    pub(crate) proof fn lemma_read_once_frame(a: Self, a2: Self, b: Self, b2: Self)
        requires
            Self::read_once(a2, b),
            a2.input == a.input,
            a2.cursor == a.cursor,
            a2.scanner_eof == a.scanner_eof,
            a2.scanner_errored == a.scanner_errored,
            b2.look_ahead == b.look_ahead,
            b2.input == b.input,
            b2.cursor == b.cursor,
            b2.scanner_eof == b.scanner_eof,
            b2.scanner_errored == b.scanner_errored,
        ensures
            Self::read_once(a, b2),
    {
        Self::lemma_reads_same(a, a2);
        Self::lemma_reads_same(b, b2);
        Self::lemma_reads_compose(a, a2, b, 0, 1);
        Self::lemma_reads_compose(a, b, b2, 1, 0);
    }

    /// `) ;` stands ahead, and the two reads over it succeed.
    pub(crate) open spec fn empty_body_ahead(&self) -> bool {
        &&& self.look_ahead.spec_is_punct(Punct::CloseParen)
        &&& self.can_read(2)
        &&& self.ahead(0).spec_is_punct(Punct::SemiColon)
    }

    /// `; ; ) ;` stands ahead, and the four reads over it succeed: the
    /// rest of a `for` loop with no test, no update and an empty body.
    pub(crate) open spec fn empty_loop_rest_ahead(&self) -> bool {
        &&& self.look_ahead.spec_is_punct(Punct::SemiColon)
        &&& self.can_read(4)
        &&& self.ahead(0).spec_is_punct(Punct::SemiColon)
        &&& self.ahead(1).spec_is_punct(Punct::CloseParen)
        &&& self.ahead(2).spec_is_punct(Punct::SemiColon)
    }

    /// `for ( ; ; ) ;` stands at the look-ahead, and the six reads over it
    /// succeed: a loop with no head and an empty body.
    pub(crate) open spec fn empty_for_ahead(&self) -> bool {
        &&& self.look_ahead.spec_is_keyword(Keyword::For)
        &&& self.can_read(6)
        &&& self.ahead(0).spec_is_punct(Punct::OpenParen)
        &&& self.ahead(1).spec_is_punct(Punct::SemiColon)
        &&& self.ahead(2).spec_is_punct(Punct::SemiColon)
        &&& self.ahead(3).spec_is_punct(Punct::CloseParen)
        &&& self.ahead(4).spec_is_punct(Punct::SemiColon)
    }

    /// `( ) =>` stands at the look-ahead, and the two reads over `( )`
    /// succeed: the empty parameters of an arrow function.
    pub(crate) open spec fn empty_arrow_params_ahead(&self) -> bool {
        &&& self.look_ahead.spec_is_punct(Punct::OpenParen)
        &&& self.can_read(2)
        &&& self.ahead(0).spec_is_punct(Punct::CloseParen)
        &&& self.ahead(1).spec_is_punct(Punct::EqualGreaterThan)
    }

    /// `export default` stands at the look-ahead, then a token that is a
    /// whole expression (and not `async`) and a token that ends it, and the
    /// three reads over them succeed.
    pub(crate) open spec fn simple_default_export_ahead(&self) -> bool {
        &&& self.look_ahead.spec_is_keyword(Keyword::Export)
        &&& self.can_read(3)
        &&& self.ahead(0).spec_is_keyword(Keyword::Default)
        &&& simple_token(self.ahead(1))
        &&& self.ahead(1).text@ != "async"@
        &&& closes(self.ahead(2))
        &&& self.ahead(2).text@ != "n"@
    }

    /// A name other than `async` stands at the look-ahead, reading it
    /// succeeds, and a `,` or a `}` follows it: a property in short form.
    pub(crate) open spec fn short_prop_ahead(&self) -> bool {
        &&& self.look_ahead.kind is Ident
        &&& self.look_ahead.text@ != "async"@
        &&& self.can_read(1)
        &&& (self.ahead(0).spec_is_punct(Punct::Comma) || self.ahead(0).spec_is_punct(
            Punct::CloseBrace,
        ))
    }

    /// `( )` stands at the look-ahead, and the two reads over it succeed:
    /// an empty parameter list.
    pub(crate) open spec fn empty_params_ahead(&self) -> bool {
        &&& self.look_ahead.spec_is_punct(Punct::OpenParen)
        &&& self.can_read(2)
        &&& self.ahead(0).spec_is_punct(Punct::CloseParen)
    }

    /// `( ) { }` stands at the look-ahead, and the four reads over it
    /// succeed: the empty parameters and the empty body of a method.
    pub(crate) open spec fn empty_method_rest_ahead(&self) -> bool {
        &&& self.look_ahead.spec_is_punct(Punct::OpenParen)
        &&& self.can_read(4)
        &&& self.ahead(0).spec_is_punct(Punct::CloseParen)
        &&& self.ahead(1).spec_is_punct(Punct::OpenBrace)
        &&& self.ahead(2).spec_is_punct(Punct::CloseBrace)
    }

    /// A name stands at the look-ahead that is none of `async`, `get`,
    /// `set` and `static`, then `( ) { }` (its `(` spelled as no `async`),
    /// and the five reads over them succeed: a method with no parameters
    /// and an empty body.
    pub(crate) open spec fn plain_method_ahead(&self) -> bool {
        &&& self.look_ahead.kind is Ident
        &&& self.look_ahead.text@ != "async"@
        &&& self.look_ahead.text@ != "get"@
        &&& self.look_ahead.text@ != "set"@
        &&& self.look_ahead.text@ != "static"@
        &&& self.can_read(5)
        &&& self.ahead(0).spec_is_punct(Punct::OpenParen)
        &&& self.ahead(0).text@ != "async"@
        &&& self.ahead(1).spec_is_punct(Punct::CloseParen)
        &&& self.ahead(2).spec_is_punct(Punct::OpenBrace)
        &&& self.ahead(3).spec_is_punct(Punct::CloseBrace)
    }

    /// `name : value` stands at the look-ahead, with a name other than
    /// `async` and a token that is a whole expression after the colon, then
    /// a token that ends it, and the three reads over them succeed.
    pub(crate) open spec fn colon_prop_ahead(&self) -> bool {
        &&& self.look_ahead.kind is Ident
        &&& self.look_ahead.text@ != "async"@
        &&& self.can_read(3)
        &&& self.ahead(0).spec_is_punct(Punct::Colon)
        &&& simple_token(self.ahead(1))
        &&& closes(self.ahead(2))
        &&& self.ahead(2).text@ != "n"@
    }

    /// `x op y` stands at the look-ahead: two tokens that are whole
    /// operands with a binary operator between them (as `in` is read here
    /// or not), and after them a token that carries no operand on; the
    /// three reads over the operands and the operator succeed.
    pub(crate) open spec fn binary_lead_ahead(&self) -> bool {
        &&& self.atom_ahead()
        &&& self.can_read(3)
        &&& crate::parser::rules::token_precedence(self.ahead(0), self.context.allow_in) > 0
        &&& simple_token(self.ahead(1))
        &&& !continues(self.ahead(2))
        &&& self.ahead(2).text@ != "n"@
    }

    /// `x op y` stands at the look-ahead, and no binary operator follows.
    pub(crate) open spec fn binary_pair_ahead(&self) -> bool {
        &&& self.binary_lead_ahead()
        &&& crate::parser::rules::token_precedence(self.ahead(2), self.context.allow_in) == 0
    }

    /// `x op y op2 z` stands at the look-ahead, where `op2` binds no
    /// tighter than `op`, and no binary operator follows; the five reads
    /// over the operands and the operators succeed.
    pub(crate) open spec fn binary_triple_ahead(&self) -> bool {
        &&& self.binary_lead_ahead()
        &&& self.can_read(5)
        &&& 0 < crate::parser::rules::token_precedence(self.ahead(2), self.context.allow_in)
        &&& crate::parser::rules::token_precedence(self.ahead(2), self.context.allow_in)
            <= crate::parser::rules::token_precedence(self.ahead(0), self.context.allow_in)
        &&& simple_token(self.ahead(3))
        &&& !continues(self.ahead(4))
        &&& self.ahead(4).text@ != "n"@
        &&& crate::parser::rules::token_precedence(self.ahead(4), self.context.allow_in) == 0
    }

    /// `x in o ) ;` stands at the look-ahead, with tokens that are whole
    /// expressions for `x` and `o`, and the five reads over it succeed: the
    /// rest of a `for`-`in` loop over a name with an empty body.
    pub(crate) open spec fn for_in_head_ahead(&self) -> bool {
        &&& simple_token(self.look_ahead)
        &&& self.can_read(5)
        &&& self.ahead(0).spec_is_keyword(Keyword::In)
        &&& self.ahead(0).text@ != "n"@
        &&& simple_token(self.ahead(1))
        &&& self.ahead(2).spec_is_punct(Punct::CloseParen)
        &&& self.ahead(2).text@ != "n"@
        &&& self.ahead(3).spec_is_punct(Punct::SemiColon)
    }

    /// `for ( x in o ) ;` stands at the look-ahead, with tokens that are
    /// whole expressions for `x` and `o`, and the seven reads over it
    /// succeed.
    pub(crate) open spec fn for_in_ahead(&self) -> bool {
        &&& self.look_ahead.spec_is_keyword(Keyword::For)
        &&& self.can_read(7)
        &&& self.ahead(0).spec_is_punct(Punct::OpenParen)
        &&& simple_token(self.ahead(1))
        &&& self.ahead(2).spec_is_keyword(Keyword::In)
        &&& self.ahead(2).text@ != "n"@
        &&& simple_token(self.ahead(3))
        &&& self.ahead(4).spec_is_punct(Punct::CloseParen)
        &&& self.ahead(4).text@ != "n"@
        &&& self.ahead(5).spec_is_punct(Punct::SemiColon)
    }

    /// `; t ; u )` stands at the look-ahead, with tokens that are whole
    /// expressions for `t` and `u`, and the four reads up to the `)`
    /// succeed: the test and the update of a `for` loop.
    pub(crate) open spec fn loop_test_update_ahead(&self) -> bool {
        &&& self.look_ahead.spec_is_punct(Punct::SemiColon)
        &&& self.can_read(4)
        &&& simple_token(self.ahead(0))
        &&& self.ahead(1).spec_is_punct(Punct::SemiColon)
        &&& self.ahead(1).text@ != "n"@
        &&& simple_token(self.ahead(2))
        &&& self.ahead(3).spec_is_punct(Punct::CloseParen)
        &&& self.ahead(3).text@ != "n"@
    }

    /// A token that is a whole operand stands at the look-ahead and no
    /// binary operator follows it (as `in` is read here or not).
    pub(crate) open spec fn atom_alone(&self) -> bool {
        &&& self.atom_ahead()
        &&& crate::parser::rules::token_precedence(self.next_token(), self.context.allow_in) == 0
    }

    /// `t ? x : y` stands at the look-ahead, with tokens that are whole
    /// operands for `t`, `x` and `y`, and after `y` a token that ends the
    /// expression; the five reads over them succeed.
    pub(crate) open spec fn cond_simple_ahead(&self) -> bool {
        &&& self.atom_ahead()
        &&& self.can_read(5)
        &&& self.ahead(0).spec_is_punct(Punct::QuestionMark)
        &&& simple_token(self.ahead(1))
        &&& self.ahead(2).spec_is_punct(Punct::Colon)
        &&& self.ahead(2).text@ != "n"@
        &&& simple_token(self.ahead(3))
        &&& ends_operand(self.ahead(4), self.context.allow_in)
        &&& self.ahead(4).text@ != "n"@
    }

    /// `[` and then `n` commas stand at the look-ahead, and the reads over
    /// them succeed: an array pattern that starts with `n` holes.
    pub(crate) open spec fn leading_holes(&self, n: nat) -> bool {
        &&& self.look_ahead.spec_is_punct(Punct::OpenBracket)
        &&& self.can_read(n + 1)
        &&& forall|j: nat| j < n ==> (#[trigger] self.ahead(j)).spec_is_punct(Punct::Comma)
    }

    /// `[ x , , y ]` stands at the look-ahead, with names `x` and `y` that
    /// may be bound here, and the six reads over it succeed: an array
    /// pattern with a hole between two names.
    pub(crate) open spec fn hole_between_ahead(&self) -> bool {
        &&& self.look_ahead.spec_is_punct(Punct::OpenBracket)
        &&& self.can_read(6)
        &&& crate::parser::primary::ident_ok(self.context, self.config.is_module, self.ahead(0), true)
        &&& self.ahead(1).spec_is_punct(Punct::Comma)
        &&& self.ahead(2).spec_is_punct(Punct::Comma)
        &&& crate::parser::primary::ident_ok(self.context, self.config.is_module, self.ahead(3), true)
        &&& self.ahead(4).spec_is_punct(Punct::CloseBracket)
    }

    /// A parser that can read `k` times can read fewer times.
    pub(crate) proof fn lemma_can_read_fewer(&self, k: nat, m: nat)
        requires
            self.can_read(k),
            m <= k,
        ensures
            self.can_read(m),
    {
    }

    /// A parser that can read at least once can read the next token.
    pub(crate) proof fn lemma_can_read_advance(&self, n: nat)
        requires
            self.can_read(n + 1),
        ensures
            self.can_advance(),
    {
        reveal(advance_ok);
        assert(real_index(self.input.stream@, self.cursor as int, 0) < self.input.stream.len());
    }

    /// An empty block stands at the look-ahead, `{` then `}`, and the two
    /// reads over it succeed.
    pub(crate) open spec fn empty_block_ahead(&self) -> bool {
        &&& self.look_ahead.spec_is_punct(Punct::OpenBrace)
        &&& self.can_read(2)
        &&& self.ahead(0).spec_is_punct(Punct::CloseBrace)
    }

    /// After a read from a parser that can read `n + 1` times, the next
    /// `n` reads succeed, and the tokens ahead move up by one.
    pub(crate) proof fn lemma_read_step(old: Self, new: Self, n: nat)
        requires
            old.can_read(n + 1),
            Self::reads_next(old, new),
            new.input == old.input,
        ensures
            old.can_advance(),
            new.look_ahead == old.ahead(0),
            new.can_read(n),
            forall|m: nat| #[trigger] new.ahead(m) == old.ahead(m + 1),
    {
        reveal(Parser::reads_next);
        reveal(advance_ok);
        let s = old.input.stream@;
        assert(real_index(s, old.cursor as int, 0) < s.len());
        assert forall|m: nat| real_index(s, new.cursor as int, m) == real_index(s, old.cursor as int, m + 1) by {
            lemma_real_index_shift(s, old.cursor as int, m);
        }
        if n > 0 {
            assert(!(old.ahead(0).kind is EoF));
        }
        assert forall|m: nat| m < n implies real_index(s, new.cursor as int, m) < s.len() by {
            assert(real_index(s, old.cursor as int, m + 1) < s.len());
        }
        assert forall|m: nat| m + 1 < n implies !((#[trigger] ahead_at(s, new.cursor as int, m)).kind is EoF) by {
            assert(!(old.ahead(m + 1).kind is EoF));
        }
        assert forall|m: nat| #[trigger] new.ahead(m) == old.ahead(m + 1) by {
            lemma_real_index_shift(s, old.cursor as int, m);
        }
    }

    /// Where reading the next token succeeds and the look-ahead is not the
    /// end of the text, the scanner still hands tokens out and a token that
    /// is no comment is left in the stream.
    pub(crate) proof fn lemma_advance_reads(&self)
        requires
            self.can_advance(),
            !(self.look_ahead.kind is EoF),
        ensures
            self.live(),
            next_real(self.input.stream@, self.cursor as int) < self.input.stream.len(),
    {
        reveal(advance_ok);
    }

    /// What reading the next token does, in detail: the errors that the
    /// end of the stream gives, and the token that is read next, with the
    /// line terminator flag before it.
    #[verifier::opaque]
    pub(crate) open spec fn next_item_effect(old: Self, new: Self, r: Res<TokItem>) -> bool {
        &&& (r matches Err(ParseError::ParseAfterEoF) ==> old.found_eof
            && old.look_ahead.kind is EoF)
        &&& (r matches Err(ParseError::UnexpectedEoF) ==> !(old.look_ahead.kind is EoF))
        &&& (!old.live() && old.look_ahead.kind is EoF && old.found_eof ==> r == Err::<
            TokItem,
            ParseError,
        >(ParseError::ParseAfterEoF))
        &&& (!old.live() && old.look_ahead.kind is EoF && !old.found_eof ==> r is Ok
            && new.found_eof)
        &&& (!old.live() && !(old.look_ahead.kind is EoF) ==> r == Err::<TokItem, ParseError>(
            ParseError::UnexpectedEoF,
        ))
        &&& (old.live() && r is Ok && next_real(old.input.stream@, old.cursor as int) < old.input.stream.len()
            ==> ({
            let j = next_real(old.input.stream@, old.cursor as int);
            &&& new.cursor == j + 1
            &&& new.look_ahead == old.input.stream@[j]
            &&& new.found_eof == old.found_eof
            &&& new.has_line_term == if j > old.cursor {
                old.input.stream@[j - 1].nl_after
            } else {
                old.pending_new_line
            }
        }))
    }

    /// Hand the look-ahead token out and read the next token that is no
    /// comment into its place, passing the comments before it to the comment
    /// handler and moving the positions over them.  At the end of the
    /// stream the end of the text is handed out once, and after that
    /// `ParseAfterEoF` comes back; a stream that ends early gives
    /// `UnexpectedEoF`, a scanner failure `ScannerError`.
    #[verifier::rlimit(60)]
    pub(crate) fn next_item(&mut self) -> (r: Res<TokItem>)
        requires
            old(self).inv(),
        ensures
            final(self).stepped(*old(self)),
            r is Ok ==> final(self).rank() < old(self).rank(),
            r matches Ok(it) ==> it == old(self).look_ahead,
            final(self).context == old(self).context,
            Self::next_item_effect(*old(self), *final(self), r),
            r is Ok <==> old(self).can_advance(),
            r is Ok ==> Self::reads_next(*old(self), *final(self)),
            r is Ok && old(self).can_read(1) ==> Self::reads_from(*old(self), *final(self), 1),
    {
        proof {
            reveal(Parser::next_item_effect);
            reveal(Parser::reads_next);
            reveal(advance_ok);
            reveal(tokens_in);
        }
        let ghost s0 = *self;
        let mut look_ahead_span = self.look_ahead.span;
        let mut line_term: bool = self.pending_new_line;
        let mut step: ScanStep = ScanStep::Done;
        let mut moved: bool = true;
        let mut go: bool = true;
        while go
            invariant
                self.inv(),
                self.same_input(s0),
                self.found_eof == s0.found_eof,
                self.look_ahead == s0.look_ahead,
                self.context == s0.context,
                self.errored == s0.errored,
                s0.cursor <= self.cursor <= self.input.stream.len(),
                self.live() ==> s0.live(),
                go ==> self.live() == s0.live(),
                go ==> forall|k: int| s0.cursor <= k < self.cursor ==> (#[trigger] self.input.stream@[k]).kind is Comment,
                go && s0.live() ==> next_real(self.input.stream@, s0.cursor as int) == next_real(self.input.stream@, self.cursor as int),
                go && s0.live() ==> self.pending_new_line == if self.cursor > s0.cursor {
                    self.input.stream@[self.cursor - 1].nl_after
                } else {
                    s0.pending_new_line
                },
                !go && moved && step is Item ==> ({
                    let j = (self.cursor - 1) as int;
                    &&& s0.cursor <= j
                    &&& step == ScanStep::Item(self.input.stream@[j])
                    &&& !(self.input.stream@[j].kind is Comment)
                    &&& s0.live()
                    &&& self.scanner_errored == s0.scanner_errored
                    &&& self.scanner_eof == (self.input.stream@[j].kind is EoF)
                    &&& next_real(self.input.stream@, s0.cursor as int) == j
                    &&& line_term == if j > s0.cursor {
                        self.input.stream@[j - 1].nl_after
                    } else {
                        s0.pending_new_line
                    }
                }),
                moved,
                look_ahead_span.start <= look_ahead_span.end,
                forall|k: int| self.cursor <= k < self.input.stream.len() ==> look_ahead_span.end <= #[trigger] self.input.stream@[k].span.start,
                !s0.live() ==> self.cursor == s0.cursor && (!go ==> step is Done),
                !go && step is Done && s0.live() ==> next_real(self.input.stream@, s0.cursor as int) == self.input.stream.len()
                    && s0.input.scan_failure is None,
                !go && step is Failed ==> s0.live() && s0.input.scan_failure is Some
                    && next_real(self.input.stream@, s0.cursor as int) == self.input.stream.len(),
            decreases self.input.stream.len() - self.cursor, if go { 1int } else { 0int },
        {
            proof {
                reveal(tokens_in);
            }
            line_term = self.pending_new_line;
            step = self.scan_next();
            match &step {
                ScanStep::Item(it) => {
                    let r = self.update_positions(look_ahead_span, it.span.start);
                    if r.is_err() {
                        moved = false;
                        go = false;
                    } else if it.is_comment() {
                        look_ahead_span = it.span;
                        self.comment_handler.handle_comment(it.copy());
                    } else {
                        go = false;
                    }
                },
                _ => {
                    go = false;
                },
            }
        }
        self.has_line_term = line_term;
        if !moved {
            return Err(self.op_error("token spans out of order"));
        }
        match step {
            ScanStep::Item(it) => {
                let mut item = it;
                std::mem::swap(&mut self.look_ahead, &mut item);
                proof {
                    if s0.can_read(1) {
                        Self::lemma_read_one(s0, *self);
                    }
                }
                Ok(item)
            },
            ScanStep::Failed(f) => {
                Err(ParseError::ScannerError(Position { line: f.line, column: f.column }, f.msg))
            },
            ScanStep::Done => {
                if self.look_ahead.is_eof() {
                    if self.found_eof {
                        Err(ParseError::ParseAfterEoF)
                    } else {
                        self.found_eof = true;
                        proof {
                            if s0.can_read(1) {
                                Self::lemma_read_one(s0, *self);
                            }
                        }
                        Ok(self.look_ahead.copy())
                    }
                } else {
                    Err(ParseError::UnexpectedEoF)
                }
            },
        }
    }

    /// An operation error at the current position.
    pub(crate) fn op_error(&self, msg: &str) -> (r: ParseError)
        ensures
            r matches ParseError::OperationError(p, m) && p == self.current_position && m@ == msg@,
    {
        ParseError::OperationError(self.current_position, msg.to_owned())
    }
}

/// The assignment operators as punctuation.
pub open spec fn is_assign_punct(p: Punct) -> bool {
    ||| p == Punct::Equal
    ||| p == Punct::AsteriskEqual
    ||| p == Punct::DoubleAsteriskEqual
    ||| p == Punct::ForwardSlashEqual
    ||| p == Punct::PercentEqual
    ||| p == Punct::PlusEqual
    ||| p == Punct::DashEqual
    ||| p == Punct::DoubleLessThanEqual
    ||| p == Punct::DoubleGreaterThanEqual
    ||| p == Punct::TripleGreaterThanEqual
    ||| p == Punct::PipeEqual
    ||| p == Punct::CaretEqual
    ||| p == Punct::AmpersandEqual
}

/// A token that may begin an expression: any token but punctuation and
/// keywords, the punctuation `[ ( + - ! ~ ++ --`, and the keywords `class
/// delete function let new super this typeof void yield`.
pub open spec fn starts_expr(t: TokItem) -> bool {
    match t.kind {
        TokKind::Punct(p) => p == Punct::OpenBracket || p == Punct::OpenParen || p == Punct::Plus
            || p == Punct::Dash || p == Punct::Bang || p == Punct::Tilde || p == Punct::DoublePlus
            || p == Punct::DoubleDash,
        TokKind::Keyword(k) => k == Keyword::Class || k == Keyword::Delete || k == Keyword::Function
            || k == Keyword::Let || k == Keyword::New || k == Keyword::Super || k == Keyword::This
            || k == Keyword::TypeOf || k == Keyword::Void || k == Keyword::Yield,
        _ => true,
    }
}

/// A token that opens a lexical binding after `let`: an identifier, `[`,
/// `{`, `let` or `yield`.
pub open spec fn opens_binding(t: TokItem) -> bool {
    ||| t.kind is Ident
    ||| t.spec_is_punct(Punct::OpenBracket)
    ||| t.spec_is_punct(Punct::OpenBrace)
    ||| t.spec_is_keyword(Keyword::Let)
    ||| t.spec_is_keyword(Keyword::Yield)
}

impl<'a, CH: CommentHandler> Parser<'a, CH> {
    /// The position of a byte offset in the text.
    pub(crate) open spec fn pos_of(&self, offset: int) -> Position {
        spec_position(self.input.lines@, offset, line_of(self.input.lines@, offset))
    }

    /// The look-ahead token is the punctuation mark `p`.
    pub(crate) fn at_punct(&self, p: Punct) -> (r: bool)
        ensures
            r == self.look_ahead.spec_is_punct(p),
    {
        self.look_ahead.matches_punct(p)
    }

    /// The look-ahead token is the keyword `k`.
    pub(crate) fn at_keyword(&self, k: Keyword) -> (r: bool)
        ensures
            r == self.look_ahead.spec_is_keyword(k),
    {
        self.look_ahead.matches_keyword(k)
    }

    /// The look-ahead token is an assignment operator.
    pub(crate) fn at_assign(&self) -> (r: bool)
        ensures
            r == (self.look_ahead.kind matches TokKind::Punct(p) && is_assign_punct(p)),
    {
        self.at_punct(Punct::Equal) || self.at_punct(Punct::AsteriskEqual) || self.at_punct(
            Punct::DoubleAsteriskEqual,
        ) || self.at_punct(Punct::ForwardSlashEqual) || self.at_punct(Punct::PercentEqual)
            || self.at_punct(Punct::PlusEqual) || self.at_punct(Punct::DashEqual) || self.at_punct(
            Punct::DoubleLessThanEqual,
        ) || self.at_punct(Punct::DoubleGreaterThanEqual) || self.at_punct(
            Punct::TripleGreaterThanEqual,
        ) || self.at_punct(Punct::PipeEqual) || self.at_punct(Punct::CaretEqual) || self.at_punct(
            Punct::AmpersandEqual,
        )
    }

    /// The look-ahead token spells `s`, as a contextual keyword such as
    /// `async` does.
    pub(crate) fn at_contextual_keyword(&self, s: &str) -> (r: bool)
        ensures
            r == (self.look_ahead.text@ == s@),
    {
        str_eq(self.look_ahead.text.as_str(), s)
    }

    /// The look-ahead token is `n`, the suffix of a big integer.
    pub(crate) fn at_big_int_flag(&self) -> (r: bool)
        ensures
            r == (self.look_ahead.text@ == "n"@),
    {
        self.at_contextual_keyword("n")
    }

    /// After `return`, `throw` and the like, an argument follows: on a new
    /// line only a string or a template, else anything but `;`, `}` and the
    /// end of the text.
    pub(crate) fn at_return_arg(&self) -> (r: bool)
        ensures
            r == if self.has_line_term {
                self.look_ahead.kind is Str || self.look_ahead.kind is Template
            } else {
                !self.look_ahead.spec_is_punct(Punct::SemiColon) && !self.look_ahead.spec_is_punct(
                    Punct::CloseBrace,
                ) && !(self.look_ahead.kind is EoF)
            },
    {
        if self.has_line_term {
            return self.look_ahead.is_string() || self.look_ahead.is_template();
        }
        !self.at_punct(Punct::SemiColon) && !self.at_punct(Punct::CloseBrace)
            && !self.look_ahead.is_eof()
    }

    /// The look-ahead token may begin an expression.
    pub(crate) fn is_start_of_expr(&self) -> (r: bool)
        ensures
            r == starts_expr(self.look_ahead),
    {
        let t = &self.look_ahead;
        let mut ret = true;
        if t.is_punct() {
            ret = t.matches_punct(Punct::OpenBracket) || t.matches_punct(Punct::OpenParen)
                || t.matches_punct(Punct::Plus) || t.matches_punct(Punct::Dash) || t.matches_punct(
                Punct::Bang,
            ) || t.matches_punct(Punct::Tilde) || t.matches_punct(Punct::DoublePlus)
                || t.matches_punct(Punct::DoubleDash);
        }
        if t.is_keyword() {
            ret = t.matches_keyword(Keyword::Class) || t.matches_keyword(Keyword::Delete)
                || t.matches_keyword(Keyword::Function) || t.matches_keyword(Keyword::Let)
                || t.matches_keyword(Keyword::New) || t.matches_keyword(Keyword::Super)
                || t.matches_keyword(Keyword::This) || t.matches_keyword(Keyword::TypeOf)
                || t.matches_keyword(Keyword::Void) || t.matches_keyword(Keyword::Yield);
        }
        if t.is_regex() {
            ret = true;
        }
        ret
    }

    /// The look-ahead token may be read as an identifier name: an
    /// identifier, a keyword, `null` or a boolean.
    pub(crate) fn at_possible_ident(&self) -> (r: bool)
        ensures
            r == (self.look_ahead.kind is Ident || self.look_ahead.kind is Keyword
                || self.look_ahead.kind is Null || self.look_ahead.kind is Boolean),
    {
        self.look_ahead.is_ident() || self.look_ahead.is_keyword() || self.look_ahead.is_null()
            || self.look_ahead.is_boolean()
    }

    /// The look-ahead token can be a property key: an identifier, string,
    /// boolean, `null`, keyword or `[`, or a number unless the one-byte text
    /// that starts one byte after it is `n`.
    pub(crate) fn at_qualified_prop_key(&self) -> (r: bool)
        ensures
            r == match self.look_ahead.kind {
                TokKind::Ident | TokKind::Str | TokKind::Boolean(_) | TokKind::Null | TokKind::Keyword(
                    _,
                ) => true,
                TokKind::Number => {
                    let b = self.input.source.spec_bytes();
                    let s = self.look_ahead.span.end + 1;
                    &&& s + 1 <= b.len()
                    &&& is_char_boundary(b, s)
                    &&& is_char_boundary(b, s + 1)
                    &&& b.subrange(s, s + 1) != seq![110u8]
                },
                TokKind::Punct(p) => p == Punct::OpenBracket,
                _ => false,
            },
    {
        match &self.look_ahead.kind {
            TokKind::Ident | TokKind::Str | TokKind::Boolean(_) | TokKind::Null | TokKind::Keyword(
                _,
            ) => true,
            TokKind::Number => {
                let end = self.look_ahead.span.end;
                let len = self.input.source.as_bytes().len();
                if end >= len || len - end < 2 {
                    return false;
                }
                match text_get(self.input.source, end + 1, end + 2) {
                    Some(n) => {
                        let nb = n.as_bytes();
                        proof {
                            if nb@.len() == 1 && nb@[0] == 110u8 {
                                assert(nb@ =~= seq![110u8]);
                            }
                        }
                        !(nb.len() == 1 && nb[0] == 110u8)
                    },
                    None => false,
                }
            },
            TokKind::Punct(p) => *p == Punct::OpenBracket,
            _ => false,
        }
    }

    /// What the peek for an import call finds: the first token after the
    /// look-ahead that is no comment.
    #[verifier::opaque]
    pub(crate) open spec fn import_call_result(old: Self, r: bool) -> bool {
        let j = next_real(old.input.stream@, old.cursor as int);
        &&& (r ==> old.look_ahead.spec_is_keyword(Keyword::Import))
        &&& (r ==> old.input.stream@[j].spec_is_punct(Punct::OpenParen))
        &&& (old.look_ahead.spec_is_keyword(Keyword::Import) && old.live() && j < old.input.stream.len()
            ==> r == old.input.stream@[j].spec_is_punct(Punct::OpenParen))
    }

    /// What the peek for a lexical declaration finds: the first token after
    /// the look-ahead that is no comment.
    #[verifier::opaque]
    pub(crate) open spec fn lexical_decl_result(old: Self, r: bool) -> bool {
        let j = next_real(old.input.stream@, old.cursor as int);
        &&& (r ==> opens_binding(old.input.stream@[j]))
        &&& (old.live() && j < old.input.stream.len() ==> r == opens_binding(old.input.stream@[j]))
    }

    /// What the peek for an async function finds: the token right after
    /// the look-ahead, comments included.
    #[verifier::opaque]
    pub(crate) open spec fn async_function_result(old: Self, r: bool) -> bool {
        r == (old.look_ahead.text@ == "async"@ && old.pending_new_line && old.live() && old.cursor
            < old.input.stream.len() && old.input.stream@[old.cursor as int].spec_is_keyword(Keyword::Function))
    }

    /// Whether `import` is followed by `(`: the look-ahead is `import` and
    /// the first token after it that is no comment is `(`.
    pub(crate) fn at_import_call(&mut self) -> (r: bool)
        requires
            old(self).inv(),
        ensures
            final(self).stepped(*old(self)),
            final(self).cursor == old(self).cursor,
            final(self).found_eof == old(self).found_eof,
            final(self).context == old(self).context,
            final(self).look_ahead == old(self).look_ahead,
            final(self).has_line_term == old(self).has_line_term,
            Self::import_call_result(*old(self), r),
    {
        proof {
            reveal(Parser::import_call_result);
        }
        if self.at_keyword(Keyword::Import) {
            match self.peek_past_comments() {
                Some(next) => next.matches_punct(Punct::OpenParen),
                None => false,
            }
        } else {
            false
        }
    }

    /// Whether the first token after the look-ahead that is no comment can
    /// open a lexical binding.
    pub(crate) fn at_lexical_decl(&mut self) -> (r: bool)
        requires
            old(self).inv(),
        ensures
            final(self).stepped(*old(self)),
            final(self).cursor == old(self).cursor,
            final(self).found_eof == old(self).found_eof,
            final(self).context == old(self).context,
            final(self).look_ahead == old(self).look_ahead,
            final(self).has_line_term == old(self).has_line_term,
            Self::lexical_decl_result(*old(self), r),
    {
        proof {
            reveal(Parser::lexical_decl_result);
        }
        match self.peek_past_comments() {
            Some(next) => next.is_ident() || next.matches_punct(Punct::OpenBracket)
                || next.matches_punct(Punct::OpenBrace) || next.matches_keyword(Keyword::Let)
                || next.matches_keyword(Keyword::Yield),
            None => false,
        }
    }

    /// Whether the look-ahead is `async` and a `function` keyword follows
    /// it: as the scanner reports it, which is when a line terminator stands
    /// after `async` and the token that follows, comments included, is
    /// `function`.
    pub(crate) fn at_async_function(&mut self) -> (r: bool)
        requires
            old(self).inv(),
        ensures
            final(self).stepped(*old(self)),
            final(self).cursor == old(self).cursor,
            final(self).found_eof == old(self).found_eof,
            final(self).context == old(self).context,
            final(self).look_ahead == old(self).look_ahead,
            final(self).has_line_term == old(self).has_line_term,
            Self::async_function_result(*old(self), r),
            old(self).look_ahead.text@ != "async"@ ==> !r && *final(self) == *old(self),
    {
        proof {
            reveal(Parser::async_function_result);
        }
        if self.at_contextual_keyword("async") {
            self.pending_new_line && match self.look_ahead_raw() {
                Some(peek) => peek.matches_keyword(Keyword::Function),
                None => false,
            }
        } else {
            false
        }
    }
}

/// The first `n` of the expected tokens in an error message: each one in
/// back quotes, separated by commas, the last of several after `or`.
pub open spec fn expectation_list(items: Seq<Seq<char>>, n: int) -> Seq<char>
    decreases n,
{
    if n <= 0 {
        Seq::empty()
    } else {
        let k = n - 1;
        let sep = if k > 0 { ", "@ } else { ""@ };
        let word = if k == items.len() - 1 && items.len() > 1 { "or `"@ } else { "`"@ };
        expectation_list(items, k) + sep + word + items[k] + "`"@
    }
}

/// The message of an unexpected token error: what was expected and what
/// was found.
pub fn expected_message(expectation: &[&str], found: &str) -> (r: String)
    ensures
        r@ == "Expected "@ + expectation_list(expectation@.map_values(|s: &str| s@), expectation@.len() as int) + "; found "@
            + found@,
{
    let mut list = String::new();
    let mut i: usize = 0;
    let ghost items = expectation@.map_values(|s: &str| s@);
    proof {
        reveal_strlit("");
        reveal_strlit(", ");
        reveal_strlit("or `");
        reveal_strlit("`");
        reveal_strlit("Expected ");
        reveal_strlit("; found ");
    }
    while i < expectation.len()
        invariant
            i <= expectation.len(),
            items == expectation@.map_values(|s: &str| s@),
            list@ == expectation_list(items, i as int),
        decreases expectation.len() - i,
    {
        let sep: &str = if i > 0 { ", " } else { "" };
        let word: &str = if i == expectation.len() - 1 && expectation.len() > 1 { "or `" } else { "`" };
        let ghost l0 = list@;
        list.append(sep);
        list.append(word);
        list.append(expectation[i]);
        list.append("`");
        proof {
            reveal_strlit("");
            reveal_strlit(", ");
            reveal_strlit("or `");
            reveal_strlit("`");
            let k = i as int;
            assert(items[k] == expectation@[k]@);
            assert(list@ =~= l0 + sep@ + word@ + items[k] + "`"@);
        }
        i = i + 1;
    }
    let mut ret = String::from_str("Expected ");
    ret.append(list.as_str());
    ret.append("; found ");
    ret.append(found);
    ret
}

/// A flag of the context.
pub enum Flag {
    AllowIn,
    AllowYield,
    AllowAwait,
    AllowStrictDirective,
    Strict,
    InIteration,
    InSwitch,
    InFunctionBody,
}

/// A context with one flag set to `v`.
#[verifier::opaque]
pub open spec fn with_flag(c: Context, f: Flag, v: bool) -> Context {
    match f {
        Flag::AllowIn => Context { allow_in: v, ..c },
        Flag::AllowYield => Context { allow_yield: v, ..c },
        Flag::AllowAwait => Context { allow_await: v, ..c },
        Flag::AllowStrictDirective => Context { allow_strict_directive: v, ..c },
        Flag::Strict => Context { strict: v, ..c },
        Flag::InIteration => Context { in_iteration: v, ..c },
        Flag::InSwitch => Context { in_switch: v, ..c },
        Flag::InFunctionBody => Context { in_function_body: v, ..c },
    }
}

/// The value of one flag of a context.
pub open spec fn flag_value(c: Context, f: Flag) -> bool {
    match f {
        Flag::AllowIn => c.allow_in,
        Flag::AllowYield => c.allow_yield,
        Flag::AllowAwait => c.allow_await,
        Flag::AllowStrictDirective => c.allow_strict_directive,
        Flag::Strict => c.strict,
        Flag::InIteration => c.in_iteration,
        Flag::InSwitch => c.in_switch,
        Flag::InFunctionBody => c.in_function_body,
    }
}

/// Setting a flag gives it the new value, and setting it back to the value
/// it had leaves the context as it was.
#[verifier::spinoff_prover]
#[verifier::rlimit(60)]
pub proof fn lemma_flag_restored(c: Context, f: Flag, v: bool)
    ensures
        flag_value(with_flag(c, f, v), f) == v,
        with_flag(with_flag(c, f, v), f, flag_value(c, f)) == c,
{
    reveal(with_flag);
}

/// Starting the cover grammar state afresh and putting back the state that
/// was taken leaves the context as it was.
pub proof fn lemma_cover_restored(c: Context)
    ensures
        with_cover(
            with_cover(c, true, true, None),
            c.is_binding_element,
            c.is_assignment_target,
            c.first_covert_initialized_name_error,
        ) == c,
{
    reveal(with_cover);
}

/// A context with the given cover grammar state.
#[verifier::opaque]
pub open spec fn with_cover(c: Context, bind: bool, assign: bool, first: Option<Span>) -> Context {
    Context {
        is_binding_element: bind,
        is_assignment_target: assign,
        first_covert_initialized_name_error: first,
        ..c
    }
}

impl<'a, CH: CommentHandler> Parser<'a, CH> {
    /// `e` reports an unexpected token at `item`: its position, what was
    /// expected, and the token as the scanner prints it.
    #[verifier::opaque]
    pub(crate) open spec fn expected_error(&self, item: TokItem, expectation: Seq<&str>, e: ParseError) -> bool {
        e matches ParseError::UnexpectedToken(p, m) && (ends_sorted(self.input.lines@) ==> p
            == self.pos_of(item.span.start as int)) && m@ == "Expected "@ + expectation_list(
            expectation.map_values(|s: &str| s@),
            expectation.len() as int,
        ) + "; found "@ + item.debug@
    }

    /// `e` reports an unexpected token at `item`: its position, its text
    /// and the message `msg`.
    #[verifier::opaque]
    pub(crate) open spec fn unexpected_error(&self, item: TokItem, msg: Seq<char>, e: ParseError) -> bool {
        e matches ParseError::UnexpectedToken(p, m) && (ends_sorted(self.input.lines@) ==> p
            == self.pos_of(item.span.start as int)) && m@ == "Found unexpected token: "@
            + item.text@ + "; "@ + msg
    }

    /// The position of a token: the line that holds its start, counted
    /// from 1, and the bytes from that line's start to it.
    pub fn get_item_position(&self, item: &TokItem) -> (r: Position)
        requires
            self.wf(),
        ensures
            ends_sorted(self.line_table()) ==> r == spec_position(
                self.line_table(),
                item.span.start as int,
                line_of(self.line_table(), item.span.start as int),
            ),
    {
        position_in(&self.input.lines, item.span.start)
    }

    /// An unexpected token error at `item`: what was expected, and the
    /// token found.
    pub(crate) fn expected_token_error<T>(&self, item: &TokItem, expectation: &[&str]) -> (r: Res<T>)
        requires
            self.inv(),
        ensures
            r matches Err(e) && self.expected_error(*item, expectation@, e),
    {
        let pos = position_in(&self.input.lines, item.span.start);
        let e = ParseError::UnexpectedToken(pos, expected_message(expectation, item.debug.as_str()));
        proof {
            reveal(Parser::expected_error);
        }
        Err(e)
    }

    /// An unexpected token error at `item`, with the token's text and a
    /// message.
    pub(crate) fn unexpected_token_error<T>(&self, item: &TokItem, msg: &str) -> (r: Res<T>)
        requires
            self.inv(),
        ensures
            r matches Err(e) && self.unexpected_error(*item, msg@, e),
    {
        let pos = position_in(&self.input.lines, item.span.start);
        let mut m = String::from_str("Found unexpected token: ");
        m.append(item.text.as_str());
        m.append("; ");
        m.append(msg);
        proof {
            reveal_strlit("Found unexpected token: ");
            reveal_strlit("; ");
            reveal(Parser::unexpected_error);
        }
        Err(ParseError::UnexpectedToken(pos, m))
    }

    /// An error that a tolerant parser lets pass.
    pub(crate) fn tolerate_error(&self, err: ParseError) -> (r: Result<(), ParseError>)
        ensures
            r is Ok <==> self.config.tolerant,
            r matches Err(e) ==> e == err,
    {
        if !self.config.tolerant {
            Err(err)
        } else {
            Ok(())
        }
    }

    /// A name declared twice, at the current position.
    pub(crate) fn redecl_error(&self, name: &str) -> (r: ParseError)
        ensures
            r matches ParseError::Redecl(p, m) && p == self.current_position && m@ == name@,
    {
        ParseError::Redecl(self.current_position, name.to_owned())
    }

    /// What cannot be read as another thing, at the current position.
    pub(crate) fn reinterpret_error(&self, from: &str, to: &str) -> (r: ParseError)
        ensures
            r matches ParseError::UnableToReinterpret(p, f, t) && p == self.current_position && f@
                == from@ && t@ == to@,
    {
        ParseError::UnableToReinterpret(self.current_position, from.to_owned(), to.to_owned())
    }

    /// Read the look-ahead token, which must be the punctuation mark `p`.
    pub(crate) fn expect_punct(&mut self, p: Punct) -> (r: Res<()>)
        requires
            old(self).inv(),
        ensures
            final(self).stepped(*old(self)),
            r is Ok ==> final(self).advanced(*old(self)) && old(self).look_ahead.spec_is_punct(p),
            r is Ok <==> old(self).look_ahead.spec_is_punct(p) && old(self).can_advance(),
            r is Ok ==> Self::reads_next(*old(self), *final(self)),
            final(self).context == old(self).context,
    {
        let next = self.next_item()?;
        if !next.matches_punct(p) {
            return self.expected_token_error(&next, &[punct_name(p)]);
        }
        Ok(())
    }

    /// Read the look-ahead token, which must be the keyword `k`.
    pub(crate) fn expect_keyword(&mut self, k: Keyword) -> (r: Res<()>)
        requires
            old(self).inv(),
        ensures
            final(self).stepped(*old(self)),
            r is Ok ==> final(self).advanced(*old(self)) && old(self).look_ahead.spec_is_keyword(k),
            r is Ok <==> old(self).look_ahead.spec_is_keyword(k) && old(self).can_advance(),
            r is Ok ==> Self::reads_next(*old(self), *final(self)),
            final(self).context == old(self).context,
    {
        let next = self.next_item()?;
        if !next.matches_keyword(k) {
            return self.expected_token_error(&next, &[keyword_name(k)]);
        }
        Ok(())
    }

    /// End a statement: read a `;`, or else stand at a line break, a `}` or
    /// the end of the text.
    pub(crate) fn consume_semicolon(&mut self) -> (r: Res<()>)
        requires
            old(self).inv(),
        ensures
            final(self).stepped(*old(self)),
            final(self).context == old(self).context,
            old(self).look_ahead.spec_is_punct(Punct::SemiColon) && r is Ok ==> final(self).advanced(
                *old(self),
            ),
            old(self).look_ahead.spec_is_punct(Punct::SemiColon) ==> (r is Ok <==> old(self).can_advance()),
            !old(self).look_ahead.spec_is_punct(Punct::SemiColon) ==> *final(self) == *old(self) && (
            r is Err <==> (!old(self).has_line_term && !(old(self).look_ahead.kind is EoF)
                && !old(self).look_ahead.spec_is_punct(Punct::CloseBrace))),
    {
        if self.at_punct(Punct::SemiColon) {
            let _semi = self.next_item()?;
        } else if !self.has_line_term {
            if !self.look_ahead.is_eof() && !self.at_punct(Punct::CloseBrace) {
                return self.expected_token_error(&self.look_ahead, &["`;`", "`eof`", "`}`"]);
            }
        }
        Ok(())
    }

    /// The state of the cover grammar: whether the expression read last
    /// may be a binding element, and an assignment target, and where the
    /// first initialized shorthand property stood.
    pub(crate) fn get_cover_grammar_state(&self) -> (r: (bool, bool, Option<Span>))
        ensures
            r == (self.context.is_binding_element, self.context.is_assignment_target,
            self.context.first_covert_initialized_name_error),
    {
        (
            self.context.is_binding_element,
            self.context.is_assignment_target,
            self.context.first_covert_initialized_name_error,
        )
    }

    /// Set one flag of the context.
    pub(crate) fn set_flag(&mut self, f: Flag, v: bool)
        requires
            old(self).inv(),
        ensures
            final(self).only_context(*old(self)),
            final(self).context == with_flag(old(self).context, f, v),
    {
        match f {
            Flag::AllowIn => self.set_allow_in(v),
            Flag::AllowYield => self.set_allow_yield(v),
            Flag::AllowAwait => self.set_allow_await(v),
            Flag::AllowStrictDirective => self.set_allow_strict_directive(v),
            Flag::Strict => self.set_strict(v),
            Flag::InIteration => self.set_in_iteration(v),
            Flag::InSwitch => self.set_in_switch(v),
            Flag::InFunctionBody => self.set_in_function_body(v),
        }
    }

    /// Set the context's `allow_in` flag.
    fn set_allow_in(&mut self, v: bool)
        requires
            old(self).inv(),
        ensures
            final(self).only_context(*old(self)),
            final(self).context == with_flag(old(self).context, Flag::AllowIn, v),
    {
        proof {
            reveal(with_flag);
        }
        self.context.allow_in = v;
    }

    /// Set the context's `allow_yield` flag.
    fn set_allow_yield(&mut self, v: bool)
        requires
            old(self).inv(),
        ensures
            final(self).only_context(*old(self)),
            final(self).context == with_flag(old(self).context, Flag::AllowYield, v),
    {
        proof {
            reveal(with_flag);
        }
        self.context.allow_yield = v;
    }

    /// Set the context's `allow_await` flag.
    fn set_allow_await(&mut self, v: bool)
        requires
            old(self).inv(),
        ensures
            final(self).only_context(*old(self)),
            final(self).context == with_flag(old(self).context, Flag::AllowAwait, v),
    {
        proof {
            reveal(with_flag);
        }
        self.context.allow_await = v;
    }

    /// Set the context's `allow_strict_directive` flag.
    fn set_allow_strict_directive(&mut self, v: bool)
        requires
            old(self).inv(),
        ensures
            final(self).only_context(*old(self)),
            final(self).context == with_flag(old(self).context, Flag::AllowStrictDirective, v),
    {
        proof {
            reveal(with_flag);
        }
        self.context.allow_strict_directive = v;
    }

    /// Set the context's `strict` flag.
    fn set_strict(&mut self, v: bool)
        requires
            old(self).inv(),
        ensures
            final(self).only_context(*old(self)),
            final(self).context == with_flag(old(self).context, Flag::Strict, v),
    {
        proof {
            reveal(with_flag);
        }
        self.context.strict = v;
    }

    /// Set the context's `in_iteration` flag.
    fn set_in_iteration(&mut self, v: bool)
        requires
            old(self).inv(),
        ensures
            final(self).only_context(*old(self)),
            final(self).context == with_flag(old(self).context, Flag::InIteration, v),
    {
        proof {
            reveal(with_flag);
        }
        self.context.in_iteration = v;
    }

    /// Set the context's `in_switch` flag.
    fn set_in_switch(&mut self, v: bool)
        requires
            old(self).inv(),
        ensures
            final(self).only_context(*old(self)),
            final(self).context == with_flag(old(self).context, Flag::InSwitch, v),
    {
        proof {
            reveal(with_flag);
        }
        self.context.in_switch = v;
    }

    /// Set the context's `in_function_body` flag.
    fn set_in_function_body(&mut self, v: bool)
        requires
            old(self).inv(),
        ensures
            final(self).only_context(*old(self)),
            final(self).context == with_flag(old(self).context, Flag::InFunctionBody, v),
    {
        proof {
            reveal(with_flag);
        }
        self.context.in_function_body = v;
    }

    /// Take the cover grammar state and start it afresh.
    pub(crate) fn isolate_cover_grammar(&mut self) -> (r: (bool, bool, Option<Span>))
        requires
            old(self).inv(),
        ensures
            r == (old(self).context.is_binding_element, old(self).context.is_assignment_target,
            old(self).context.first_covert_initialized_name_error),
            final(self).only_context(*old(self)),
            final(self).context.allow_in == old(self).context.allow_in,
            final(self).context == with_cover(old(self).context, true, true, None),
    {
        proof {
            reveal(with_cover);
        }
        let ret = self.get_cover_grammar_state();
        self.context.is_binding_element = true;
        self.context.is_assignment_target = true;
        self.context.first_covert_initialized_name_error = None;
        ret
    }

    /// Take the cover grammar state and start it afresh, for an expression
    /// whose state the outer one will inherit.
    pub(crate) fn inherit_cover_grammar(&mut self) -> (r: (bool, bool, Option<Span>))
        requires
            old(self).inv(),
        ensures
            r == (old(self).context.is_binding_element, old(self).context.is_assignment_target,
            old(self).context.first_covert_initialized_name_error),
            final(self).only_context(*old(self)),
            final(self).context.allow_in == old(self).context.allow_in,
            final(self).context == with_cover(old(self).context, true, true, None),
    {
        self.isolate_cover_grammar()
    }

    /// Put back a cover grammar state that was taken by
    /// `isolate_cover_grammar`.
    pub(crate) fn set_isolate_cover_grammar_state(
        &mut self,
        prev_bind: bool,
        prev_assign: bool,
        prev_first: Option<Span>,
    ) -> (r: Res<()>)
        requires
            old(self).inv(),
        ensures
            r is Ok,
            final(self).only_context(*old(self)),
            final(self).context.allow_in == old(self).context.allow_in,
            final(self).context == with_cover(old(self).context, prev_bind, prev_assign, prev_first),
    {
        proof {
            reveal(with_cover);
        }
        self.context.is_binding_element = prev_bind;
        self.context.is_assignment_target = prev_assign;
        self.context.first_covert_initialized_name_error = prev_first;
        Ok(())
    }

    /// Combine a cover grammar state taken by `inherit_cover_grammar` with
    /// the current one: both must allow a binding element, or an
    /// assignment target, for the result to; a recorded shorthand error is
    /// kept.
    pub(crate) fn set_inherit_cover_grammar_state(
        &mut self,
        is_binding_element: bool,
        is_assignment: bool,
        first: Option<Span>,
    )
        requires
            old(self).inv(),
        ensures
            final(self).only_context(*old(self)),
            final(self).context.allow_in == old(self).context.allow_in,
            final(self).context == with_cover(
                old(self).context,
                old(self).context.is_binding_element && is_binding_element,
                old(self).context.is_assignment_target && is_assignment,
                if first is Some {
                    first
                } else {
                    old(self).context.first_covert_initialized_name_error
                },
            ),
    {
        let bind = self.context.is_binding_element && is_binding_element;
        let assign = self.context.is_assignment_target && is_assignment;
        let f = match first {
            Some(x) => Some(x),
            None => self.context.first_covert_initialized_name_error,
        };
        let _ = self.set_isolate_cover_grammar_state(bind, assign, f);
    }
}

impl<'a> Parser<'a, DefaultCommentHandler> {
    /// Create a new parser with the provided
    /// javascript
    /// This will default to parsing in the
    /// script context and discard comments.
    /// If you wanted change this behavior
    /// utilize the `Builder` pattern
    pub fn new(text: &'a str) -> (r: Res<Self>)
        ensures
            r matches Ok(p) ==> p.wf() && p.text() == text && !p.is_tolerant() && !p.is_module()
                && p.line_table() == spec_lines(text.spec_bytes()) && stream_of(
                p.tokens(),
                text.spec_bytes(),
            ),
            scan_refused(text.spec_bytes()) ==> r is Err,
            !scan_refused(text.spec_bytes()) ==> exists|s: Seq<TokItem>, f: Option<ScanFailure>|
                #[trigger] scans(text@, text.spec_bytes(), s, f) && (r is Ok <==> first_read_ok(s, f)) && (
                r matches Ok(p) ==> p.tokens() == s),
    {
        let lines = get_lines(text);
        let config = Config::default();
        let context = Context::default();
        Self::_new(lines, config, context, DefaultCommentHandler, text)
    }
}

impl<'a, CH: CommentHandler> Parser<'a, CH> {
    /// Internal constructor for completing the builder pattern: a parser
    /// over `source`, scanned afresh, whose lines are `lines`.
    pub fn build(
        tolerant: bool,
        is_module: bool,
        lines: Vec<Line>,
        comment_handler: CH,
        source: &'a str,
    ) -> (r: Res<Self>)
        requires
            lines.len() > 0,
        ensures
            r matches Ok(p) ==> p.wf() && p.text() == source && p.is_tolerant() == tolerant
                && p.is_module() == is_module && p.line_table() == lines@ && stream_of(
                p.tokens(),
                source.spec_bytes(),
            ),
            scan_refused(source.spec_bytes()) ==> r is Err,
            !scan_refused(source.spec_bytes()) ==> exists|s: Seq<TokItem>, f: Option<ScanFailure>|
                #[trigger] scans(source@, source.spec_bytes(), s, f) && (r is Ok <==> first_read_ok(s, f)) && (
                r matches Ok(p) ==> p.tokens() == s),
    {
        let config = Config { tolerant, is_module };
        let context = Context::default();
        Self::_new(lines, config, context, comment_handler, source)
    }

    /// Tokenize the text and read its first token into the look-ahead.
    fn _new(
        lines: Vec<Line>,
        config: Config,
        context: Context,
        comment_handler: CH,
        source: &'a str,
    ) -> (r: Res<Self>)
        requires
            lines.len() > 0,
        ensures
            r matches Ok(p) ==> p.inv() && p.input.source == source && p.config.tolerant
                == config.tolerant && p.config.is_module == config.is_module && p.context == context && p.input.lines@ == lines@
                && stream_of(p.input.stream@, source.spec_bytes()),
            scan_refused(source.spec_bytes()) ==> r is Err,
            !scan_refused(source.spec_bytes()) ==> exists|s: Seq<TokItem>, f: Option<ScanFailure>|
                #[trigger] scans(source@, source.spec_bytes(), s, f) && (r is Ok <==> first_read_ok(s, f)) && (
                r matches Ok(p) ==> p.input.stream@ == s),
    {
        let (stream, scan_failure) = tokenize(source);
        let ghost s = stream@;
        let ghost f = scan_failure;
        let r = Self::with_tokens(stream, scan_failure, lines, config, context, comment_handler, source);
        proof {
            if !scan_refused(source.spec_bytes()) {
                assert(scans(source@, source.spec_bytes(), s, f));
            }
        }
        r
    }

    /// A parser over the token stream `stream` of `source`, which the
    /// scanner ended with `scan_failure`, with its first token read into the
    /// look-ahead.  That read succeeds exactly when the stream holds a token
    /// that is no comment, or the scanner did not fail.
    pub(crate) fn with_tokens(
        stream: Vec<TokItem>,
        scan_failure: Option<ScanFailure>,
        lines: Vec<Line>,
        config: Config,
        context: Context,
        comment_handler: CH,
        source: &'a str,
    ) -> (r: Res<Self>)
        requires
            lines.len() > 0,
            stream_of(stream@, source.spec_bytes()),
            spans_ordered(stream@),
        ensures
            r is Ok <==> (next_real(stream@, 0) < stream.len() || scan_failure is None),
            r matches Ok(p) ==> p.inv() && p.input.source == source && p.config.tolerant
                == config.tolerant && p.config.is_module == config.is_module && p.context == context && p.input.lines@ == lines@
                && p.input.stream@ == stream@ && p.input.scan_failure == scan_failure,
    {
        let look_ahead = TokItem {
            kind: TokKind::EoF,
            span: Span { start: 0, end: 0 },
            text: String::new(),
            nl_after: false,
            debug: String::from_str("EoF"),
        };
        proof {
            assert(source.spec_bytes().subrange(0, 0) =~= Seq::<u8>::empty());
            assert(vstd::utf8::encode_utf8(Seq::<char>::empty()) =~= Seq::<u8>::empty());
            reveal(tokens_in);
        }
        let ghost sv = stream@;
        let ghost sf = scan_failure;
        let mut ret = Parser {
            context,
            config,
            input: Input { source, lines, stream, scan_failure },
            cursor: 0,
            scanner_eof: false,
            scanner_errored: false,
            pending_new_line: false,
            has_line_term: false,
            look_ahead,
            found_eof: false,
            current_position: Position { line: 1, column: 0 },
            look_ahead_position: Position { line: 1, column: 0 },
            comment_handler,
            errored: false,
        };
        proof {
            reveal(advance_ok);
            assert(ret.can_advance() == (next_real(sv, 0) < sv.len() || sf is None));
        }
        let _ = ret.next_item()?;
        Ok(ret)
    }
}

impl<'a, CH: CommentHandler> Parser<'a, CH> {
    /// The next part of the program: a directive while the directive
    /// prologue lasts, then a statement or declaration.  An error marks the
    /// parser as errored.
    #[verifier::spinoff_prover]
    fn next_part(&mut self) -> (r: Res<ProgramPart>)
        requires
            old(self).inv(),
        ensures
            r is Ok ==> final(self).inv() && final(self).same_input(*old(self)) && final(self).rank()
                < old(self).rank() && final(self).errored == old(self).errored,
            old(self).context.past_prolog && r is Ok ==> final(self).context.past_prolog,
            old(self).context.past_prolog ==> !(r matches Ok(ProgramPart::Dir(_))),
            r matches Ok(p) && !(p is Dir) ==> final(self).context.past_prolog,
            r matches Ok(ProgramPart::Dir(d)) && d.dir@ == "use strict"@ ==> final(self).context.strict,
            r is Err ==> final(self).errored && final(self).inv() && final(self).same_input(*old(self))
                && final(self).rank() <= old(self).rank(),
            old(self).simple_ahead() && !(old(self).look_ahead.kind is Str) && ends_statement(
                old(self).next_token(),
            ) ==> r == Ok::<ProgramPart, ParseError>(
                ProgramPart::Stmt(Stmt::Expr(simple_tree(old(self).look_ahead))),
            ) && Self::read_once(*old(self), *final(self)),
            old(self).semi_simple_ahead() && !(old(self).look_ahead.kind is Str) ==> r == Ok::<
                ProgramPart,
                ParseError,
            >(ProgramPart::Stmt(Stmt::Expr(simple_tree(old(self).look_ahead)))),
    {
        if !self.context.past_prolog {
            if self.look_ahead.is_string() {
                let next_part = match self.parse_directive() {
                    Ok(n) => n,
                    Err(e) => {
                        self.errored = true;
                        return Err(e);
                    },
                };
                let past = match &next_part {
                    ProgramPart::Dir(_) => false,
                    _ => true,
                };
                self.context.past_prolog = past;
                return Ok(next_part);
            } else {
                self.context.past_prolog = true;
            }
        }
        let ret = match self.parse_statement_list_item() {
            Ok(p) => p,
            Err(e) => {
                self.errored = true;
                return Err(e);
            },
        };
        let ghost m = *self;
        self.context.past_prolog = true;
        proof {
            if old(self).simple_ahead() && !(old(self).look_ahead.kind is Str) && ends_statement(
                old(self).next_token(),
            ) {
                Self::lemma_read_once_frame(*old(self), *old(self), m, *self);
            }
        }
        Ok(ret)
    }

    /// The next part of the program, or `None` once the end of the text or
    /// an error has been reached.  Each part that comes back consumes
    /// input, and after an error no part comes back.
    pub fn next(&mut self) -> (r: Option<Res<ProgramPart>>)
        requires
            old(self).wf(),
        ensures
            final(self).wf(),
            final(self).text() == old(self).text(),
            final(self).is_tolerant() == old(self).is_tolerant(),
            final(self).is_module() == old(self).is_module(),
            final(self).line_table() == old(self).line_table(),
            final(self).tokens() == old(self).tokens(),
            final(self).remaining() <= old(self).remaining(),
            old(self).is_done() ==> r is None && *final(self) == *old(self),
            !old(self).is_done() ==> r is Some,
            r matches Some(Ok(_)) ==> final(self).remaining() < old(self).remaining()
                && final(self).is_errored() == old(self).is_errored(),
            r matches Some(Err(_)) ==> final(self).is_errored() && final(self).is_done(),
            old(self).simple_part() matches Some(part) ==> r == Some(Ok::<ProgramPart, ParseError>(part))
                && (old(self).simple_last() ==> final(self).at_end()),
            old(self).past_prologue() && !(r matches Some(Err(_))) ==> final(self).past_prologue(),
            old(self).past_prologue() ==> !(r matches Some(Ok(ProgramPart::Dir(_)))),
            r matches Some(Ok(p)) && !(p is Dir) ==> final(self).past_prologue(),
            r matches Some(Ok(ProgramPart::Dir(d))) && d.dir@ == "use strict"@ ==> final(self).is_strict(),
    {
        if self.look_ahead.is_eof() || self.errored {
            None
        } else {
            Some(self.next_part())
        }
    }

    /// Wrapper around `next`: every part of the program, as a module or a
    /// script as the parser was built, or the first error.
    /// ```
    /// use ressa::Parser;
    /// let js = "function helloWorld() { alert('Hello world'); }";
    /// let mut p = Parser::new(&js).unwrap();
    /// let program = p.parse().unwrap();
    /// ```
    pub fn parse(&mut self) -> (r: Res<Program>)
        requires
            old(self).wf(),
        ensures
            final(self).wf(),
            final(self).text() == old(self).text(),
            final(self).is_module() == old(self).is_module(),
            final(self).is_done(),
            r matches Ok(p) ==> (p is Mod <==> old(self).is_module()),
            r is Ok && !old(self).is_errored() ==> final(self).at_end(),
            r is Err ==> final(self).is_errored(),
            old(self).simple_last() ==> (r matches Ok(prog) && parts_of(prog) == seq![
                old(self).simple_part()->Some_0,
            ]),
    {
        let mut body: Vec<ProgramPart> = Vec::new();
        let ghost last = old(self).simple_last();
        let ghost part = old(self).simple_part()->Some_0;
        loop
            invariant
                self.wf(),
                self.text() == old(self).text(),
                self.is_module() == old(self).is_module(),
                self.is_errored() ==> old(self).is_errored(),
                last == old(self).simple_last(),
                part == old(self).simple_part()->Some_0,
                last ==> (body@.len() == 0 && *self == *old(self)) || (body@ == seq![part]
                    && self.at_end()),
            ensures
                self.wf(),
                self.text() == old(self).text(),
                self.is_module() == old(self).is_module(),
                self.is_errored() ==> old(self).is_errored(),
                self.is_done(),
                last ==> body@ == seq![part],
            decreases self.remaining(),
        {
            match self.next() {
                Some(Ok(part)) => body.push(part),
                Some(Err(e)) => {
                    return Err(e);
                },
                None => {
                    break;
                },
            }
        }
        Ok(
            if self.config.is_module {
                Program::Mod(body)
            } else {
                Program::Script(body)
            },
        )
    }
}

/// This is used to create a `Parser` using
/// the builder method
pub struct Builder<'b> {
    tolerant: bool,
    is_module: bool,
    js: &'b str,
}

impl<'b> Builder<'b> {
    /// Whether the parser to build tolerates errors.
    pub closed spec fn spec_tolerant(&self) -> bool {
        self.tolerant
    }

    /// Whether the parser to build reads a module.
    pub closed spec fn spec_module(&self) -> bool {
        self.is_module
    }

    /// The text the parser to build reads.
    pub closed spec fn spec_js(&self) -> &'b str {
        self.js
    }

    pub fn new() -> (r: Self)
        ensures
            !r.spec_tolerant(),
            !r.spec_module(),
            r.spec_js()@ == Seq::<char>::empty(),
    {
        let js = "";
        proof {
            reveal_strlit("");
        }
        Self { tolerant: false, is_module: false, js }
    }

    /// Enable or disable error tolerance
    /// default: `false`
    pub fn set_tolerant(&mut self, value: bool)
        ensures
            final(self).spec_tolerant() == value,
            final(self).spec_module() == old(self).spec_module(),
            final(self).spec_js() == old(self).spec_js(),
    {
        self.tolerant = value;
    }

    /// Enable or disable error tolerance with a builder
    /// pattern
    /// default: `false`
    pub fn tolerant(&mut self, value: bool) -> (r: &mut Self)
        ensures
            r.spec_tolerant() == value,
            r.spec_module() == old(self).spec_module(),
            r.spec_js() == old(self).spec_js(),
            *final(self) == *final(r),
    {
        self.set_tolerant(value);
        self
    }

    /// Set the parsing context to module or script
    /// default: `false` (script)
    pub fn set_module(&mut self, value: bool)
        ensures
            final(self).spec_module() == value,
            final(self).spec_tolerant() == old(self).spec_tolerant(),
            final(self).spec_js() == old(self).spec_js(),
    {
        self.is_module = value;
    }

    /// Set the parsing context to module or script
    /// with a builder pattern
    /// default: `false` (script)
    pub fn module(&mut self, value: bool) -> (r: &mut Self)
        ensures
            r.spec_module() == value,
            r.spec_tolerant() == old(self).spec_tolerant(),
            r.spec_js() == old(self).spec_js(),
            *final(self) == *final(r),
    {
        self.set_module(value);
        self
    }

    /// Set the js text that this parser would operate
    /// on
    pub fn set_js(&mut self, js: &'b str)
        ensures
            final(self).spec_js() == js,
            final(self).spec_tolerant() == old(self).spec_tolerant(),
            final(self).spec_module() == old(self).spec_module(),
    {
        self.js = js;
    }

    /// Set the js text that this parser would operate
    /// on with a builder pattern
    pub fn js(&mut self, js: &'b str) -> (r: &mut Self)
        ensures
            r.spec_js() == js,
            r.spec_tolerant() == old(self).spec_tolerant(),
            r.spec_module() == old(self).spec_module(),
            *final(self) == *final(r),
    {
        self.set_js(js);
        self
    }

    /// Complete the builder pattern returning
    /// `Result<Parser, Error>`
    pub fn build(&self) -> (r: Res<Parser<'b, DefaultCommentHandler>>)
        ensures
            r matches Ok(p) ==> p.wf() && p.is_tolerant() == self.spec_tolerant() && p.is_module()
                == self.spec_module() && p.text() == self.spec_js() && p.line_table() == spec_lines(
                self.spec_js().spec_bytes(),
            ) && stream_of(p.tokens(), self.spec_js().spec_bytes()),
            scan_refused(self.spec_js().spec_bytes()) ==> r is Err,
            !scan_refused(self.spec_js().spec_bytes()) ==> exists|s: Seq<TokItem>, f: Option<ScanFailure>|
                #[trigger] scans(self.spec_js()@, self.spec_js().spec_bytes(), s, f) && (r is Ok
                <==> first_read_ok(s, f)) && (r matches Ok(p) ==> p.tokens() == s),
    {
        let lines = get_lines(self.js);
        Parser::build(self.tolerant, self.is_module, lines, DefaultCommentHandler, self.js)
    }
}


} // verus!

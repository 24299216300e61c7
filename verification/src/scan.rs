//! The token stream of a text, as the `ress` scanner produces it.
use vstd::prelude::*;
use vstd::string::StringSliceAdditionalSpecFns;
use vstd::utf8::{decode_utf8, encode_utf8, is_char_boundary};
use ress::Scanner;
use ress::tokens::{Template, Token};
use crate::tokens::{keyword_of, punct_of, spec_keyword_of, spec_punct_of, Span, TemplatePart, TokItem, TokKind};

verus! {

#[verifier::external_type_specification]
#[verifier::external_body]
#[verifier::reject_recursive_types(T)]
pub struct ExToken<T>(Token<T>);

#[verifier::external_type_specification]
#[verifier::external_body]
#[verifier::reject_recursive_types(T)]
pub struct ExTemplate<T>(Template<T>);

/// The kind of a scanned token, before its text is classified.
pub enum RawKind {
    Boolean(bool),
    EoF,
    Ident,
    Keyword,
    Null,
    Number,
    Punct,
    Str,
    RegEx { body: String, flags: Option<String> },
    Template(TemplatePart, String),
    Comment,
}

/// A scanned token: its kind, its byte span, and whether the scanner saw a
/// line terminator after it.
pub struct RawItem {
    pub kind: RawKind,
    pub start: usize,
    pub end: usize,
    pub nl_after: bool,
    /// How the scanner prints the token
    pub debug: String,
}

/// A failure of the scanner, with the line and column where it happened.
#[derive(Clone, Debug, PartialEq)]
pub struct ScanFailure {
    pub line: usize,
    pub column: usize,
    pub msg: String,
}

/// The bytes `/*/` stand in `b` at `i`.
pub open spec fn bad_comment_at(b: Seq<u8>, i: int) -> bool {
    0 <= i && i + 3 <= b.len() && b[i] == 0x2Fu8 && b[i + 1] == 0x2Au8 && b[i + 2] == 0x2Fu8
}

/// The bytes `/*/` stand somewhere in `b`.
pub open spec fn has_bad_comment(b: Seq<u8>) -> bool {
    exists|i: int| bad_comment_at(b, i)
}

/// The bytes of a line or paragraph separator, U+2028 or U+2029, stand in
/// `b` at `i`.
pub open spec fn separator_at(b: Seq<u8>, i: int) -> bool {
    0 <= i && i + 3 <= b.len() && b[i] == 0xE2u8 && b[i + 1] == 0x80u8 && (b[i + 2] == 0xA8u8
        || b[i + 2] == 0xA9u8)
}

/// The texts that the scanner is not handed, because it panics on some of
/// them.  It reads a comment that starts `/*/` as ending at its own
/// opening star and then cuts the comment's text short.  And where a string
/// literal fails, it finds the failure's line and column by slicing the
/// text up to the byte before where it stopped, which lies inside a
/// character where that character is wider than a byte: a separator that
/// cuts a string short, or the last character of a text that leaves a
/// string open.  Texts that hold `/*/` or a separator, or that end in a
/// character wider than a byte, are refused.
pub open spec fn scan_refused(b: Seq<u8>) -> bool {
    ||| has_bad_comment(b)
    ||| (exists|i: int| separator_at(b, i))
    ||| (b.len() > 0 && b[b.len() - 1] >= 0x80u8)
}

/// Whether the scanner is not handed `b`.
pub fn refuses_scan(b: &[u8]) -> (r: bool)
    ensures
        r == scan_refused(b@),
{
    let mut i: usize = 0;
    while b.len() >= 3 && i <= b.len() - 3
        invariant
            forall|j: int| 0 <= j < i ==> !bad_comment_at(b@, j) && !separator_at(b@, j),
        decreases b.len() - i,
    {
        if b[i] == 0x2Fu8 && b[i + 1] == 0x2Au8 && b[i + 2] == 0x2Fu8 {
            assert(bad_comment_at(b@, i as int));
            return true;
        }
        if b[i] == 0xE2u8 && b[i + 1] == 0x80u8 && (b[i + 2] == 0xA8u8 || b[i + 2] == 0xA9u8) {
            assert(separator_at(b@, i as int));
            return true;
        }
        i = i + 1;
    }
    assert forall|j: int| !bad_comment_at(b@, j) && !separator_at(b@, j) by {
        if 0 <= j && j + 3 <= b@.len() {
            assert(j < i);
        }
    }
    b.len() > 0 && b[b.len() - 1] >= 0x80u8
}

/// What `ress::Scanner::new(text)` hands out at its `index`-th call of
/// `next`, counted from zero: a token with its span, its printed form and
/// the scanner's `pending_new_line` flag after it; or the scanner's
/// failure; or nothing.
pub uninterp spec fn scan_item(text: Seq<char>, index: nat) -> Option<Result<RawItem, ScanFailure>>;


/// `ress::Template` told apart by its variant, with its cooked text.
#[verifier::external_body]
fn template_kind(t: &Template<&str>) -> RawKind {
    match t {
        Template::NoSub(c) => RawKind::Template(TemplatePart::NoSub, c.to_string()),
        Template::Head(c) => RawKind::Template(TemplatePart::Head, c.to_string()),
        Template::Middle(c) => RawKind::Template(TemplatePart::Middle, c.to_string()),
        Template::Tail(c) => RawKind::Template(TemplatePart::Tail, c.to_string()),
    }
}

/// `ress::Token` told apart by its variant; a boolean keeps its value, a
/// regular expression its body and flags, a template part its cooked text.
#[verifier::external_body]
fn raw_kind(t: &Token<&str>) -> RawKind {
    match t {
        Token::Boolean(b) => RawKind::Boolean(b.is_true()),
        Token::EoF => RawKind::EoF,
        Token::Ident(_) => RawKind::Ident,
        Token::Keyword(_) => RawKind::Keyword,
        Token::Null => RawKind::Null,
        Token::Number(_) => RawKind::Number,
        Token::Punct(_) => RawKind::Punct,
        Token::String(_) => RawKind::Str,
        Token::RegEx(r) => RawKind::RegEx { body: r.body.to_string(), flags: r.flags.map(String::from) },
        Token::Template(t) => template_kind(t),
        Token::Comment(_) => RawKind::Comment,
    }
}

/// `ress::Scanner::new(text)` advanced by `Iterator::nth(index)`: the item
/// it hands out at its `index`-th call of `next`, converted, with its
/// `pending_new_line` flag after that call.  The scanner is a function of
/// the text alone, so the result is `scan_item` of the text and the index.
/// Each call scans the text afresh from its start.
#[verifier::external_body]
fn scan_nth(text: &str, index: usize) -> (r: Option<Result<RawItem, ScanFailure>>)
    requires
        !scan_refused(text.spec_bytes()),
    ensures
        r == scan_item(text@, index as nat),
{
    let mut s = Scanner::new(text);
    match s.nth(index) {
        None => None,
        Some(Err(e)) => Some(Err(ScanFailure { line: e.line, column: e.column, msg: e.msg })),
        Some(Ok(item)) => Some(Ok(RawItem {
            kind: raw_kind(&item.token),
            start: item.span.start,
            end: item.span.end,
            nl_after: s.pending_new_line,
            debug: format!("{:?}", item.token),
        })),
    }
}


/// `str::get` with a byte range: the part of `text` between two byte
/// indices, when both lie on character boundaries and in order.
#[verifier::external_body]
pub fn text_get<'a>(text: &'a str, start: usize, end: usize) -> (r: Option<&'a str>)
    ensures
        r is Some <==> (start <= end && is_char_boundary(text.spec_bytes(), start as int)
            && is_char_boundary(text.spec_bytes(), end as int)),
        r matches Some(s) ==> s.spec_bytes() == text.spec_bytes().subrange(start as int, end as int),
{
    text.get(start..end)
}

/// A token whose span lies in `b` and whose text is the source of that
/// span, with keywords and punctuation named as their text spells them.
pub open spec fn item_in(it: TokItem, b: Seq<u8>) -> bool {
    &&& it.span.start <= it.span.end <= b.len()
    &&& encode_utf8(it.text@) == b.subrange(it.span.start as int, it.span.end as int)
    &&& (it.kind matches TokKind::Keyword(k) ==> spec_keyword_of(it.text@) == Some(k))
    &&& (it.kind matches TokKind::Punct(p) ==> spec_punct_of(it.text@) == Some(p))
}

/// A token stream of `b`: every item lies in it, and only the last may be
/// the end of the text.
pub open spec fn stream_of(items: Seq<TokItem>, b: Seq<u8>) -> bool {
    &&& forall|k: int| 0 <= k < items.len() ==> item_in(#[trigger] items[k], b)
    &&& forall|k: int| 0 <= k < items.len() - 1 ==> !(#[trigger] items[k].kind is EoF)
}

/// The stream's spans run in order: each token ends at or before the start
/// of every later one.
pub open spec fn spans_ordered(items: Seq<TokItem>) -> bool {
    forall|i: int, j: int|
        0 <= i < j < items.len() ==> #[trigger] items[i].span.end <= #[trigger] items[j].span.start
}

/// The kind of a scanned token whose source text is `s`: a keyword or a
/// punctuation mark must be one that `s` spells; the other kinds carry over.
pub open spec fn kind_for(raw: RawKind, s: Seq<char>) -> Option<TokKind> {
    match raw {
        RawKind::Boolean(b) => Some(TokKind::Boolean(b)),
        RawKind::EoF => Some(TokKind::EoF),
        RawKind::Ident => Some(TokKind::Ident),
        RawKind::Keyword => match spec_keyword_of(s) {
            Some(k) => Some(TokKind::Keyword(k)),
            None => None,
        },
        RawKind::Null => Some(TokKind::Null),
        RawKind::Number => Some(TokKind::Number),
        RawKind::Punct => match spec_punct_of(s) {
            Some(p) => Some(TokKind::Punct(p)),
            None => None,
        },
        RawKind::Str => Some(TokKind::Str),
        RawKind::RegEx { body, flags } => Some(TokKind::RegEx { body, flags }),
        RawKind::Template(part, cooked) => Some(TokKind::Template(part, cooked)),
        RawKind::Comment => Some(TokKind::Comment),
    }
}

/// The span of a scanned token lies in `b` on character boundaries.
pub open spec fn span_in(raw: RawItem, b: Seq<u8>) -> bool {
    &&& raw.start <= raw.end <= b.len()
    &&& is_char_boundary(b, raw.start as int)
    &&& is_char_boundary(b, raw.end as int)
}

/// Turn a scanned token into a token of the stream: its text is the source
/// of its span, and a keyword or punctuation mark is named by that text.
/// There is none where the span does not lie in the text on character
/// boundaries, or where a keyword or punctuation mark is not one its text
/// spells.
fn classify(text: &str, raw: RawItem) -> (r: Option<TokItem>)
    ensures
        r is Some <==> span_in(raw, text.spec_bytes()) && kind_for(
            raw.kind,
            decode_utf8(text.spec_bytes().subrange(raw.start as int, raw.end as int)),
        ) is Some,
        r matches Some(it) ==> item_in(it, text.spec_bytes()) && Some(it.kind) == kind_for(
            raw.kind,
            it.text@,
        ) && it.text@ == decode_utf8(text.spec_bytes().subrange(raw.start as int, raw.end as int))
            && it.span == (Span { start: raw.start, end: raw.end }) && it.nl_after == raw.nl_after
            && it.debug == raw.debug,
{
    let src = match text_get(text, raw.start, raw.end) {
        Some(s) => s,
        None => {
            proof {
                if span_in(raw, text.spec_bytes()) {
                    assert(raw.start <= raw.end);
                }
            }
            return None;
        },
    };
    proof {
        vstd::utf8::encode_utf8_decode_utf8(src@);
    }
    let bytes = text.as_bytes();
    let kind = match raw.kind {
        RawKind::Boolean(b) => TokKind::Boolean(b),
        RawKind::EoF => TokKind::EoF,
        RawKind::Ident => TokKind::Ident,
        RawKind::Keyword => match keyword_of(src) {
            Some(k) => TokKind::Keyword(k),
            None => return None,
        },
        RawKind::Null => TokKind::Null,
        RawKind::Number => TokKind::Number,
        RawKind::Punct => match punct_of(src) {
            Some(p) => TokKind::Punct(p),
            None => return None,
        },
        RawKind::Str => TokKind::Str,
        RawKind::RegEx { body, flags } => TokKind::RegEx { body, flags },
        RawKind::Template(part, cooked) => TokKind::Template(part, cooked),
        RawKind::Comment => TokKind::Comment,
    };
    let owned: String = src.to_owned();
    if raw.end > bytes.len() {
        return None;
    }
    Some(
        TokItem {
            kind,
            span: Span { start: raw.start, end: raw.end },
            text: owned,
            nl_after: raw.nl_after,
            debug: raw.debug,
        },
    )
}

/// The most items a scan of `b` reads: one more than `b` has bytes, which
/// no scan reaches.
pub open spec fn scan_cap(b: Seq<u8>) -> nat {
    if b.len() < usize::MAX {
        (b.len() + 1) as nat
    } else {
        b.len() as nat
    }
}

/// The scanned token `raw` starts at or after `last_end` and lies in `b` as
/// a token of the stream.
pub open spec fn fits(raw: RawItem, b: Seq<u8>, last_end: nat) -> bool {
    &&& last_end <= raw.start
    &&& span_in(raw, b)
    &&& kind_for(raw.kind, decode_utf8(b.subrange(raw.start as int, raw.end as int))) is Some
}

/// `it` is the token of the stream that the scanned token `raw` gives in `b`.
pub open spec fn item_from(raw: RawItem, b: Seq<u8>, it: TokItem) -> bool {
    &&& it.span == (Span { start: raw.start, end: raw.end })
    &&& it.text@ == decode_utf8(b.subrange(raw.start as int, raw.end as int))
    &&& Some(it.kind) == kind_for(raw.kind, it.text@)
    &&& it.nl_after == raw.nl_after
    &&& it.debug == raw.debug
}

/// Scanning the text `t`, whose bytes are `b`, from its `k`-th item on,
/// after a token that ends at `last_end` and with `fuel` more items to
/// read, gives the tokens `items` and ends with `fail`.  A token that fits
/// is taken, and the stream ends with the end of the text; the scanner's
/// failure is handed on; the scanner stopping, a token that does not fit,
/// or running out of fuel ends it with a failure of the stream's own.
pub open spec fn scans_from(
    t: Seq<char>,
    b: Seq<u8>,
    k: nat,
    last_end: nat,
    fuel: nat,
    items: Seq<TokItem>,
    fail: Option<ScanFailure>,
) -> bool
    decreases fuel,
{
    if fuel == 0 {
        items.len() == 0 && fail is Some
    } else {
        match scan_item(t, k) {
            None => items.len() == 0 && fail is Some,
            Some(Err(e)) => items.len() == 0 && fail == Some(e),
            Some(Ok(raw)) => if !fits(raw, b, last_end) {
                items.len() == 0 && fail is Some
            } else {
                &&& items.len() > 0
                &&& item_from(raw, b, items[0])
                &&& if raw.kind is EoF {
                    items.len() == 1 && fail is None
                } else {
                    scans_from(t, b, k + 1, raw.end as nat, (fuel - 1) as nat, items.drop_first(), fail)
                }
            },
        }
    }
}

/// `items` is the token stream of the text `t`, whose bytes are `b`, and
/// the scan ends with `fail`.
pub open spec fn scans(t: Seq<char>, b: Seq<u8>, items: Seq<TokItem>, fail: Option<ScanFailure>) -> bool {
    scans_from(t, b, 0, 0, scan_cap(b), items, fail)
}

/// Two tokens alike in every part.
pub open spec fn same_token(x: TokItem, y: TokItem) -> bool {
    &&& x.span == y.span
    &&& x.text@ == y.text@
    &&& x.kind == y.kind
    &&& x.nl_after == y.nl_after
    &&& x.debug == y.debug
}

/// Two streams alike token by token.
pub open spec fn same_stream(s1: Seq<TokItem>, s2: Seq<TokItem>) -> bool {
    &&& s1.len() == s2.len()
    &&& forall|i: int| 0 <= i < s1.len() ==> same_token(#[trigger] s1[i], s2[i])
}

/// A text has one token stream: two scans of it agree token by token, and
/// both end at the end of the text or both fail.
pub proof fn lemma_scans_agree(
    t: Seq<char>,
    b: Seq<u8>,
    k: nat,
    last_end: nat,
    fuel: nat,
    s1: Seq<TokItem>,
    f1: Option<ScanFailure>,
    s2: Seq<TokItem>,
    f2: Option<ScanFailure>,
)
    requires
        scans_from(t, b, k, last_end, fuel, s1, f1),
        scans_from(t, b, k, last_end, fuel, s2, f2),
    ensures
        same_stream(s1, s2),
        f1 is None <==> f2 is None,
    decreases fuel,
{
    if fuel > 0 {
        if let Some(Ok(raw)) = scan_item(t, k) {
            if fits(raw, b, last_end) && !(raw.kind is EoF) {
                lemma_scans_agree(
                    t,
                    b,
                    k + 1,
                    raw.end as nat,
                    (fuel - 1) as nat,
                    s1.drop_first(),
                    f1,
                    s2.drop_first(),
                    f2,
                );
                assert forall|i: int| 0 <= i < s1.len() implies same_token(#[trigger] s1[i], s2[i]) by {
                    if i > 0 {
                        assert(s1[i] == s1.drop_first()[i - 1]);
                        assert(s2[i] == s2.drop_first()[i - 1]);
                    }
                }
            }
        }
    }
}

/// The token stream of `text`, as the scanner gives it, and how the scan
/// ended.  The stream stops at the end of the text, or at the first
/// failure, returned beside it: the scanner's own, a token it gives that
/// does not lie in the text or comes before the end of the previous one,
/// the scanner stopping before the end of the text, or the stream holding
/// one token more than the text has bytes.  A text that the scanner is not
/// handed has an empty stream and a failure.
pub fn tokenize(text: &str) -> (r: (Vec<TokItem>, Option<ScanFailure>))
    ensures
        stream_of(r.0@, text.spec_bytes()),
        spans_ordered(r.0@),
        r.1 is None ==> r.0.len() > 0 && r.0@[r.0.len() - 1].kind is EoF,
        scan_refused(text.spec_bytes()) ==> r.0.len() == 0 && r.1 is Some,
        !scan_refused(text.spec_bytes()) ==> scans(text@, text.spec_bytes(), r.0@, r.1),
{
    let bytes = text.as_bytes();
    if refuses_scan(bytes) {
        return (
            Vec::new(),
            Some(
                ScanFailure {
                    line: 0,
                    column: 0,
                    msg: String::from_str("text the scanner is not handed"),
                },
            ),
        );
    }
    let ghost t = text@;
    let ghost b = text.spec_bytes();
    let cap: usize = if bytes.len() < usize::MAX { bytes.len() + 1 } else { bytes.len() };
    let mut items: Vec<TokItem> = Vec::new();
    let mut count: usize = 0;
    let mut last_end: usize = 0;
    proof {
        assert forall|rest: Seq<TokItem>, f: Option<ScanFailure>|
            #[trigger] scans_from(t, b, 0, 0, scan_cap(b), rest, f) implies scans(t, b, items@ + rest, f) by {
            assert(items@ + rest =~= rest);
        }
    }
    while count < cap
        invariant
            bytes@ == b,
            b == text.spec_bytes(),
            t == text@,
            !scan_refused(b),
            cap == scan_cap(b),
            count <= cap,
            items.len() == count,
            stream_of(items@, b),
            spans_ordered(items@),
            forall|k: int| 0 <= k < items.len() ==> #[trigger] items@[k].span.end <= last_end,
            forall|k: int| 0 <= k < items.len() ==> !(#[trigger] items@[k].kind is EoF),
            forall|rest: Seq<TokItem>, f: Option<ScanFailure>|
                #[trigger] scans_from(t, b, count as nat, last_end as nat, (cap - count) as nat, rest, f)
                    ==> scans(t, b, items@ + rest, f),
        decreases cap - count,
    {
        let fuel: Ghost<nat> = Ghost((cap - count) as nat);
        match scan_nth(text, count) {
            None => {
                let fail = Some(
                    ScanFailure {
                        line: 0,
                        column: 0,
                        msg: String::from_str("scanner stopped before the end of the text"),
                    },
                );
                proof {
                    assert(scans_from(t, b, count as nat, last_end as nat, fuel@, Seq::empty(), fail));
                    assert(items@ + Seq::<TokItem>::empty() =~= items@);
                }
                return (items, fail);
            },
            Some(Err(e)) => {
                proof {
                    assert(scans_from(t, b, count as nat, last_end as nat, fuel@, Seq::empty(), Some(e)));
                    assert(items@ + Seq::<TokItem>::empty() =~= items@);
                }
                return (items, Some(e));
            },
            Some(Ok(raw)) => {
                let ghost r0 = raw;
                let is_end = match raw.kind {
                    RawKind::EoF => true,
                    _ => false,
                };
                let start = raw.start;
                let classified = if start < last_end {
                    None
                } else {
                    classify(text, raw)
                };
                match classified {
                    Some(it) => {
                        let ghost before = items@;
                        let end = it.span.end;
                        items.push(it);
                        assert(forall|k: int| 0 <= k < before.len() ==> items@[k] == before[k]);
                        assert(forall|k: int| 0 <= k < items.len() ==> item_in(#[trigger] items@[k], text.spec_bytes()));
                        proof {
                            assert(fits(r0, b, last_end as nat));
                            assert(item_from(r0, b, it));
                        }
                        if is_end {
                            proof {
                                assert(scans_from(t, b, count as nat, last_end as nat, fuel@, seq![it], None));
                                assert(before + seq![it] =~= items@);
                            }
                            return (items, None);
                        }
                        proof {
                            assert forall|rest: Seq<TokItem>, f: Option<ScanFailure>|
                                #[trigger] scans_from(t, b, (count + 1) as nat, end as nat, (cap - (count + 1)) as nat, rest, f)
                                implies scans(t, b, items@ + rest, f) by {
                                assert((seq![it] + rest).drop_first() =~= rest);
                                assert(scans_from(t, b, count as nat, last_end as nat, fuel@, seq![it] + rest, f));
                                assert(before + (seq![it] + rest) =~= items@ + rest);
                            }
                        }
                        last_end = end;
                    },
                    None => {
                        let fail = Some(
                            ScanFailure {
                                line: 0,
                                column: 0,
                                msg: String::from_str("token outside the text or out of order"),
                            },
                        );
                        proof {
                            assert(!fits(r0, b, last_end as nat));
                            assert(scans_from(t, b, count as nat, last_end as nat, fuel@, Seq::empty(), fail));
                            assert(items@ + Seq::<TokItem>::empty() =~= items@);
                        }
                        return (items, fail);
                    },
                }
            },
        }
        count = count + 1;
    }
    let fail = Some(ScanFailure { line: 0, column: 0, msg: String::from_str("too many tokens") });
    proof {
        assert(scans_from(t, b, count as nat, last_end as nat, (cap - count) as nat, Seq::empty(), fail));
        assert(items@ + Seq::<TokItem>::empty() =~= items@);
    }
    (items, fail)
}


} // verus!

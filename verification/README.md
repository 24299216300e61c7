# ressa

A JavaScript parser, verified with Verus. The `ress` scanner splits the text
into tokens; the parser reads them by recursive descent into a tree of
program parts (`ast`), one part per call of `Parser::next`, or all of them
with `Parser::parse`.

## Layout

- `src/tokens.rs`: tokens, punctuation marks and keywords, as the parser sees them.
- `src/scan.rs`: the calls into the `ress` scanner and the token stream of a text.
- `src/lines.rs`: the lines of a text and the line/column position of an offset.
- `src/labels.rs`: the set of statement labels in scope.
- `src/ast.rs`: the tree the parser builds.
- `src/error.rs`: the errors of parsing.
- `src/parser.rs` and `src/parser/`: the parser state, the token reading
  helpers, and the grammar (statements, declarations, expressions, patterns).
- `tests/`: tests on concrete texts.
- `app/`: the tree as the borrowed tree of the `resast` crate.

## What is proved

Every grammar function keeps the parser well formed and never reads back;
every one that succeeds has consumed input, so parsing terminates and
`Parser::next` hands out a finite sequence of parts. After an error `next`
reports the parser errored and done, and a done parser hands out nothing
(`Parser::lemma_done` ties the two). `parse` gives a module exactly when the
parser was built for one. Once `next` has handed out a part that is no
directive, it hands out no directive again; a `'use strict'` directive
leaves the parser strict, and a `with` statement in strict code fails with
`NonStrictFeatureInStrictContext` unless the parser is tolerant.

The token stream is tied to the text: `scan_item` names what the `ress`
scanner hands out at each call, `tokenize` returns exactly the stream that
`scans` builds from those items, and `Parser::new`, `Parser::build` and
`Builder::build` succeed exactly when the first read of that stream does,
holding that stream. `lemma_text_reads_alike` shows that two scans of one
text agree token by token, so every parser over a text starts alike.

Reading a token succeeds exactly when the scanner has one left, or stands at
the end of the text it has not handed out; `consume_semicolon`, the token
helpers and the one-token grammar functions state exactly when they succeed.
Fixed token sequences are stated in full: a name, literal or `this` that
ends an expression (through every expression level up to a statement and
`next`; with `parse` where it is the whole text), two or three such operands
joined by binary operators of falling or equal precedence (grouped to the
left), a unary operator on such a token, plain variable and lexical
bindings, `{}`, `try {} finally {}`, `for (;;);`, `for (x in o);`, `() =>`,
`export default` of such a token, a property in short form or as
`name: value`, a class method or constructor with no parameters and an
empty body, `* as name`, rest elements; a second constructor in a class is
an error. The trees of other texts are not stated.

The scanner is never handed a text that holds the bytes `/*/` or a line or
paragraph separator, or that ends in a character wider than a byte: it
panics on some of these (a comment that starts `/*/`, a string failure that
falls inside a character), and such texts are refused.

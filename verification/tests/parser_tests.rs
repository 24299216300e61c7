use ressa::ast::{
    AssignmentExpr, AssignmentLeft, AssignmentOperator, BinaryExpr, BinaryOperator, CallExpr,
    Class, Decl, DefaultExportDecl, Dir, ExportSpecifier, Expr, ForInStmt, ForOfStmt, ForStmt,
    Function, FunctionArg, LabeledStmt, Literal, LogicalExpr, LogicalOperator, LoopInit, LoopLeft, ModExport, NamedExportDecl,
    ObjectProperty, Pat, Program, ProgramPart, Property, PropertyKey, PropertyKind,
    PropertyValue, Stmt, VariableDecl, VariableKind,
};
use ressa::error::ParseError;
use ressa::labels::LabelSet;
use ressa::lines::{get_lines, line_index, position_in, Line, Position};
use ressa::parser::{expected_message, Builder, DefaultCommentHandler, Parser};
use ressa::parser::module::trim_quotes;
use ressa::scan::tokenize;
use ressa::tokens::{Keyword, Punct, Span, TokItem, TokKind};

#[test]
fn split_lines() {
    println!("line feed");
    let lf = "lf:0
0;";
    let lines = get_lines(lf);
    let expectation = vec![Line { start: 0, end: 4 }, Line { start: 5, end: 6 }];
    assert_eq!(lines, expectation);
    println!("carriage return");
    let cr = format!("cr:0{}0;", '\r');
    let lines = get_lines(&cr);
    let expectation = vec![Line { start: 0, end: 4 }, Line { start: 5, end: 6 }];
    assert_eq!(lines, expectation);
    println!("carriage return line feed");
    let crlf = format!("crlf:0{}{}0;", '\r', '\n');
    let lines = get_lines(&crlf);
    let expectation = vec![Line { start: 0, end: 7 }, Line { start: 8, end: 9 }];
    assert_eq!(lines, expectation);
    println!("line seperator");
    let ls = "ls:0\u{2028}0;";
    let lines = get_lines(ls);
    let expectation = vec![Line { start: 0, end: 6 }, Line { start: 7, end: 8 }];
    assert_eq!(lines, expectation);
    println!("paragraph separator");
    let ps = "ps:0\u{2029}0;";
    let lines = get_lines(ps);
    let expectation = vec![Line { start: 0, end: 6 }, Line { start: 7, end: 8 }];
    assert_eq!(lines, expectation);
}

#[test]
fn position_for_item() {
    let js = "function thing() {
    return 'stuff';
}";
    let item1 = TokItem {
        span: Span { start: 9, end: 13 },
        kind: TokKind::Ident,
        text: "thing".to_string(),
        nl_after: false,
        debug: String::new(),
    };
    let position1 = Position { line: 1, column: 9 };
    let p = Parser::new(js).unwrap();
    assert_eq!(p.get_item_position(&item1), position1);
    let item2 = TokItem {
        span: Span { start: 30, end: 36 },
        kind: TokKind::Str,
        text: "'stuff'".to_string(),
        nl_after: false,
        debug: String::new(),
    };
    let position2 = Position { line: 2, column: 11 };
    assert_eq!(p.get_item_position(&item2), position2);
    let item3 = TokItem {
        span: Span { start: 39, end: 40 },
        kind: TokKind::Punct(Punct::CloseBrace),
        text: "}".to_string(),
        nl_after: false,
        debug: String::new(),
    };
    let position3 = Position { line: 3, column: 0 };
    assert_eq!(p.get_item_position(&item3), position3);
}

fn ident(s: &str) -> Expr {
    Expr::Ident(s.to_string())
}

fn number(s: &str) -> Expr {
    Expr::Literal(Literal::Number(s.to_string()))
}

#[test]
fn lines_of_empty_text() {
    assert_eq!(get_lines(""), vec![Line { start: 0, end: 0 }]);
}

#[test]
fn lines_crlf_counts_once() {
    assert_eq!(
        get_lines("a\r\nb"),
        vec![Line { start: 0, end: 2 }, Line { start: 3, end: 3 }]
    );
}

#[test]
fn lines_trailing_newline() {
    assert_eq!(
        get_lines("a\n"),
        vec![Line { start: 0, end: 1 }, Line { start: 2, end: 1 }]
    );
}

#[test]
fn tokens_of_simple_sum() {
    let (items, failure) = tokenize("a + 1");
    assert!(failure.is_none());
    let kinds: Vec<TokKind> = items.iter().map(|i| i.kind.clone()).collect();
    assert_eq!(
        kinds,
        vec![TokKind::Ident, TokKind::Punct(Punct::Plus), TokKind::Number, TokKind::EoF]
    );
    assert_eq!(items[0].span, Span { start: 0, end: 1 });
    assert_eq!(items[1].text, "+");
    assert_eq!(items[2].span, Span { start: 4, end: 5 });
}

#[test]
fn tokens_keep_keywords_and_booleans() {
    let (items, failure) = tokenize("if (true) {}");
    assert!(failure.is_none());
    assert_eq!(items[0].kind, TokKind::Keyword(Keyword::If));
    assert_eq!(items[2].kind, TokKind::Boolean(true));
}

#[test]
fn parse_hello_world_function() {
    let js = "function helloWorld() { alert('Hello world'); }";
    let mut p = Parser::new(js).unwrap();
    let call = CallExpr {
        callee: Box::new(ident("alert")),
        arguments: vec![Expr::Literal(Literal::String("'Hello world'".to_string()))],
    };
    let expectation = Program::Script(vec![ProgramPart::Decl(Decl::Function(Function {
        id: Some("helloWorld".to_string()),
        params: vec![],
        body: vec![ProgramPart::Stmt(Stmt::Expr(Expr::Call(call)))],
        generator: false,
        is_async: false,
    }))]);
    assert_eq!(p.parse().unwrap(), expectation);
}

#[test]
fn parse_as_module() {
    let mut p = Builder::new().module(true).js("x;").build().unwrap();
    assert_eq!(
        p.parse().unwrap(),
        Program::Mod(vec![ProgramPart::Stmt(Stmt::Expr(ident("x")))])
    );
}

#[test]
fn parse_as_script_by_default() {
    let mut p = Builder::new().js("x;").build().unwrap();
    assert_eq!(
        p.parse().unwrap(),
        Program::Script(vec![ProgramPart::Stmt(Stmt::Expr(ident("x")))])
    );
}

#[test]
fn directive_is_trimmed() {
    let mut p = Parser::new("'use strict'; x;").unwrap();
    assert_eq!(
        p.parse().unwrap(),
        Program::Script(vec![
            ProgramPart::Dir(Dir {
                expr: Literal::String("'use strict'".to_string()),
                dir: "use strict".to_string(),
            }),
            ProgramPart::Stmt(Stmt::Expr(ident("x"))),
        ])
    );
}

#[test]
fn multiplication_binds_tighter() {
    let mut p = Parser::new("1 + 2 * 3;").unwrap();
    let product = Expr::Binary(BinaryExpr {
        operator: BinaryOperator::Times,
        left: Box::new(number("2")),
        right: Box::new(number("3")),
    });
    let sum = Expr::Binary(BinaryExpr {
        operator: BinaryOperator::Plus,
        left: Box::new(number("1")),
        right: Box::new(product),
    });
    assert_eq!(
        p.parse().unwrap(),
        Program::Script(vec![ProgramPart::Stmt(Stmt::Expr(sum))])
    );
}

#[test]
fn same_precedence_groups_left() {
    let mut p = Parser::new("1 - 2 - 3;").unwrap();
    let first = Expr::Binary(BinaryExpr {
        operator: BinaryOperator::Minus,
        left: Box::new(number("1")),
        right: Box::new(number("2")),
    });
    let whole = Expr::Binary(BinaryExpr {
        operator: BinaryOperator::Minus,
        left: Box::new(first),
        right: Box::new(number("3")),
    });
    assert_eq!(
        p.parse().unwrap(),
        Program::Script(vec![ProgramPart::Stmt(Stmt::Expr(whole))])
    );
}

#[test]
fn assignment_statement() {
    let mut p = Parser::new("x = 1;").unwrap();
    let assign = Expr::Assignment(AssignmentExpr {
        operator: AssignmentOperator::Equal,
        left: AssignmentLeft::Expr(Box::new(ident("x"))),
        right: Box::new(number("1")),
    });
    assert_eq!(
        p.parse().unwrap(),
        Program::Script(vec![ProgramPart::Stmt(Stmt::Expr(assign))])
    );
}

#[test]
fn var_statement() {
    let mut p = Parser::new("var a = 1, b;").unwrap();
    assert_eq!(
        p.parse().unwrap(),
        Program::Script(vec![ProgramPart::Stmt(Stmt::Var(vec![
            VariableDecl { id: Pat::Identifier("a".to_string()), init: Some(number("1")) },
            VariableDecl { id: Pat::Identifier("b".to_string()), init: None },
        ]))])
    );
}

#[test]
fn let_declaration() {
    let mut p = Parser::new("let a = 1;").unwrap();
    assert_eq!(
        p.parse().unwrap(),
        Program::Script(vec![ProgramPart::Decl(Decl::Variable(
            VariableKind::Let,
            vec![VariableDecl { id: Pat::Identifier("a".to_string()), init: Some(number("1")) }],
        ))])
    );
}

#[test]
fn var_without_name_is_an_error() {
    let mut p = Parser::new("var;").unwrap();
    match p.parse() {
        Err(ParseError::UnexpectedToken(pos, msg)) => {
            assert_eq!(pos, Position { line: 1, column: 3 });
            assert_eq!(msg, "Expected `variable identifier`; found Punct(SemiColon)");
        }
        other => panic!("unexpected result {:?}", other),
    }
}

#[test]
fn return_outside_function_is_an_error() {
    let mut p = Parser::new("return 1;").unwrap();
    match p.next() {
        Some(Err(ParseError::UnexpectedToken(pos, msg))) => {
            assert_eq!(pos, Position { line: 1, column: 0 });
            assert_eq!(
                msg,
                "Found unexpected token: return; cannot return in the global context"
            );
        }
        other => panic!("unexpected result {:?}", other),
    }
}

#[test]
fn no_parts_after_an_error() {
    let mut p = Parser::new("return 1; x;").unwrap();
    assert!(matches!(p.next(), Some(Err(_))));
    assert!(p.next().is_none());
    assert!(p.next().is_none());
}

#[test]
fn no_parts_after_the_end() {
    let mut p = Parser::new("x;").unwrap();
    assert!(matches!(p.next(), Some(Ok(_))));
    assert!(p.next().is_none());
}

#[test]
fn label_declared_twice_is_an_error() {
    let mut p = Parser::new("a: a: x;").unwrap();
    match p.parse() {
        Err(ParseError::Redecl(_, name)) => assert_eq!(name, "a"),
        other => panic!("unexpected result {:?}", other),
    }
}

#[test]
fn getter_with_parameters_is_an_error() {
    let mut p = Parser::new("({ get a(x) {} });").unwrap();
    assert!(matches!(p.parse(), Err(ParseError::InvalidGetterParams(_))));
}

#[test]
fn getter_with_parameters_is_tolerated() {
    let mut p = Builder::new().tolerant(true).js("({ get a(x) {} });").build().unwrap();
    assert!(p.parse().is_ok());
}

#[test]
fn use_strict_directive_makes_with_an_error() {
    let mut p = Parser::new("'use strict'; with (a) {}").unwrap();
    assert!(matches!(p.next(), Some(Ok(ProgramPart::Dir(_)))));
    assert!(matches!(p.next(), Some(Err(ParseError::NonStrictFeatureInStrictContext(_, _)))));
    assert!(p.next().is_none());
}

#[test]
fn use_strict_in_a_function_stays_inside_it() {
    let mut p = Parser::new("function f() { 'use strict'; } with (a) {}").unwrap();
    assert!(p.parse().is_ok());
}

#[test]
fn text_holding_a_bad_comment_start_is_refused() {
    let (items, failure) = tokenize("a; /*/ b */");
    assert!(items.is_empty());
    assert!(failure.is_some());
    assert!(matches!(Parser::new("/*/"), Err(ParseError::ScannerError(_, _))));
}

#[test]
fn empty_text_parses_to_nothing() {
    let mut p = Parser::new("").unwrap();
    assert_eq!(p.parse().unwrap(), Program::Script(vec![]));
}

#[test]
fn simple_parameters() {
    let a = FunctionArg::Pat(Pat::Identifier("a".to_string()));
    let b = FunctionArg::Expr(ident("b"));
    let c = FunctionArg::Expr(number("1"));
    assert!(Parser::<DefaultCommentHandler>::is_simple(&a));
    assert!(Parser::<DefaultCommentHandler>::is_simple(&b));
    assert!(!Parser::<DefaultCommentHandler>::is_simple(&c));
}

#[test]
fn quotes_are_trimmed_from_both_ends() {
    assert_eq!(trim_quotes("'abc'"), "abc");
    assert_eq!(trim_quotes("\"'x'\""), "x");
    assert_eq!(trim_quotes("''"), "");
    assert_eq!(trim_quotes("a'b"), "a'b");
}

#[test]
fn expected_message_lists_alternatives() {
    assert_eq!(expected_message(&["a"], "x"), "Expected `a`; found x");
    assert_eq!(expected_message(&["a", "b", "c"], "x"), "Expected `a`, `b`, or `c`; found x");
    assert_eq!(expected_message(&[], "x"), "Expected ; found x");
}

#[test]
fn template_has_one_more_quasi_than_expressions() {
    let mut p = Parser::new("`a${b}c${d}e`;").unwrap();
    match p.parse().unwrap() {
        Program::Script(parts) => {
            assert_eq!(parts.len(), 1);
            match &parts[0] {
                ProgramPart::Stmt(Stmt::Expr(Expr::Literal(Literal::Template(t)))) => {
                    assert_eq!(t.expressions, vec![ident("b"), ident("d")]);
                    assert_eq!(t.quasis.len(), 3);
                    assert!(!t.quasis[0].tail);
                    assert!(!t.quasis[1].tail);
                    assert!(t.quasis[2].tail);
                    assert_eq!(t.quasis[0].cooked, "a");
                    assert_eq!(t.quasis[2].cooked, "e");
                }
                other => panic!("unexpected part {:?}", other),
            }
        }
        other => panic!("unexpected program {:?}", other),
    }
}

#[test]
fn two_constructors_are_an_error() {
    let mut p = Parser::new("class A { constructor() {} constructor() {} }").unwrap();
    assert!(matches!(p.parse(), Err(ParseError::UnexpectedToken(_, _))));
}

#[test]
fn one_constructor_is_fine() {
    let mut p = Parser::new("class A { constructor() {} m() {} }").unwrap();
    assert!(p.parse().is_ok());
}

#[test]
fn two_defaults_in_a_switch_are_an_error() {
    let mut p = Parser::new("switch (a) { default: x; default: y; }").unwrap();
    assert!(matches!(p.parse(), Err(ParseError::UnexpectedToken(_, _))));
}

#[test]
fn prefix_operators() {
    let mut p = Parser::new("-x; ++y;").unwrap();
    let parts = match p.parse().unwrap() {
        Program::Script(parts) => parts,
        other => panic!("unexpected program {:?}", other),
    };
    assert_eq!(
        parts[0],
        ProgramPart::Stmt(Stmt::Expr(Expr::Unary(ressa::ast::UnaryExpr {
            operator: ressa::ast::UnaryOperator::Minus,
            prefix: true,
            argument: Box::new(ident("x")),
        })))
    );
    assert_eq!(
        parts[1],
        ProgramPart::Stmt(Stmt::Expr(Expr::Update(ressa::ast::UpdateExpr {
            operator: ressa::ast::UpdateOperator::Increment,
            argument: Box::new(ident("y")),
            prefix: true,
        })))
    );
}

#[test]
fn boolean_null_and_string_literals() {
    let mut p = Parser::new("true; null; \"s\";").unwrap();
    assert_eq!(
        p.parse().unwrap(),
        Program::Script(vec![
            ProgramPart::Stmt(Stmt::Expr(Expr::Literal(Literal::Boolean(true)))),
            ProgramPart::Stmt(Stmt::Expr(Expr::Literal(Literal::Null))),
            ProgramPart::Stmt(Stmt::Expr(Expr::Literal(Literal::String("\"s\"".to_string())))),
        ])
    );
}

#[test]
fn position_on_a_later_line() {
    let js = "a;\n\nbc;";
    let p = Parser::new(js).unwrap();
    let item = TokItem {
        span: Span { start: 5, end: 6 },
        kind: TokKind::Ident,
        text: "c".to_string(),
        nl_after: false,
        debug: String::new(),
    };
    assert_eq!(p.get_item_position(&item), Position { line: 3, column: 1 });
}

fn parses(js: &str) -> Program {
    let mut p = Parser::new(js).unwrap();
    p.parse().unwrap()
}

#[test]
fn common_statements_parse() {
    let samples = [
        "for (var i = 0; i < 10; i++) { x(i); }",
        "for (let k in o) {}",
        "for (const v of list) { v; }",
        "while (a) { if (b) break; else continue; }",
        "do { a++; } while (a < 3);",
        "switch (x) { case 1: y(); break; default: z(); }",
        "try { a(); } catch (e) { b(e); } finally { c(); }",
        "outer: for (;;) { break outer; }",
        "throw new Error('x');",
        "var re = /ab+c/gi;",
        "var t = tag`a${1}b`;",
        "var o = { a: 1, b, get c() { return 1; }, set d(v) {}, e() {}, [f]: 2, ...g };",
        "var a = [1, , ...b];",
        "var f = function named(a, b = 2, ...c) { return a; };",
        "var g = (a, b) => a + b;",
        "var h = async x => x;",
        "class A extends B { constructor() { super(); } static s() {} get g() { return 1; } }",
        "a ? b : c;",
        "a = b = c;",
        "x += 1; y **= 2; z >>>= 3;",
        "typeof a === 'string' && !b || void 0;",
        "new Foo(1, 2).bar[0]();",
        "function* gen() { yield 1; yield* other(); }",
        "async\nfunction af() { await p; }",
        "({ a, b: [c, d] } = obj);",
        "let { x, y: z = 1, ...rest } = obj;",
        "const [p, , q = 3, ...r] = arr;",
        "a in b; a instanceof B;",
        "delete a.b;",
        "if (a) b(); else if (c) d(); else e();",
        "with (obj) { a; }",
        "debugger;",
        "// only a comment\nx; /* and another */ y;",
    ];
    for js in samples.iter() {
        let mut p = Parser::new(js).unwrap();
        match p.parse() {
            Ok(_) => {}
            Err(e) => panic!("{} failed: {:?}", js, e),
        }
    }
}

#[test]
fn module_declarations_parse() {
    let samples = [
        "import a from 'a';",
        "import * as b from 'b';",
        "import { c, d as e } from 'c';",
        "import f, { g } from 'f';",
        "import 'side-effect';",
        "export default function () {}",
        "export default class {}",
        "export const h = 1;",
        "export { h as i };",
        "export * from 'j';",
        "export function k() {}",
    ];
    for js in samples.iter() {
        let mut p = Builder::new().module(true).js(js).build().unwrap();
        match p.parse() {
            Ok(Program::Mod(_)) => {}
            other => panic!("{} gave {:?}", js, other),
        }
    }
}

#[test]
fn arrow_function_shape() {
    match parses("(a, b) => a + b;") {
        Program::Script(parts) => match &parts[0] {
            ProgramPart::Stmt(Stmt::Expr(Expr::ArrowFunction(f))) => {
                assert_eq!(f.params.len(), 2);
                assert!(f.expression);
                assert!(!f.is_async);
            }
            other => panic!("unexpected part {:?}", other),
        },
        other => panic!("unexpected program {:?}", other),
    }
}

#[test]
fn for_loop_shape() {
    match parses("for (;;) {}") {
        Program::Script(parts) => match &parts[0] {
            ProgramPart::Stmt(Stmt::For(f)) => {
                assert!(f.init.is_none());
                assert!(f.test.is_none());
                assert!(f.update.is_none());
                assert_eq!(*f.body, Stmt::Block(vec![]));
            }
            other => panic!("unexpected part {:?}", other),
        },
        other => panic!("unexpected program {:?}", other),
    }
}

#[test]
fn comments_reach_no_tree() {
    assert_eq!(
        parses("/* a */ x; // b"),
        Program::Script(vec![ProgramPart::Stmt(Stmt::Expr(ident("x")))])
    );
}

#[test]
fn async_function_is_read_when_a_line_break_follows_async() {
    match parses("async\nfunction af() { await p; }") {
        Program::Script(parts) => match &parts[0] {
            ProgramPart::Stmt(Stmt::Expr(Expr::Function(f))) => {
                assert!(f.is_async);
                assert_eq!(f.id, Some("af".to_string()));
            }
            other => panic!("unexpected part {:?}", other),
        },
        other => panic!("unexpected program {:?}", other),
    }
}

#[test]
fn async_then_function_on_one_line_is_an_error() {
    let mut p = Parser::new("async function af() {}").unwrap();
    assert!(matches!(p.parse(), Err(ParseError::UnexpectedToken(_, _))));
}

#[test]
fn label_set_insert_and_remove() {
    let mut labels = LabelSet::new();
    assert!(!labels.has("a"));
    assert!(labels.insert("a".to_string()));
    assert!(!labels.insert("a".to_string()));
    assert!(labels.has("a"));
    let copy = labels.duplicate();
    labels.remove("a");
    assert!(!labels.has("a"));
    assert!(copy.has("a"));
}

#[test]
fn reversed_vector() {
    assert_eq!(ressa::parser::reversed(vec![1, 2, 3]), vec![3, 2, 1]);
    assert_eq!(ressa::parser::reversed(Vec::<u8>::new()), Vec::<u8>::new());
}

#[test]
fn line_index_of_offsets() {
    let lines = get_lines("ab\ncd\nef");
    assert_eq!(line_index(&lines, 0), 0);
    assert_eq!(line_index(&lines, 2), 1);
    assert_eq!(line_index(&lines, 3), 1);
    assert_eq!(line_index(&lines, 7), 2);
    assert_eq!(position_in(&lines, 4), Position { line: 2, column: 1 });
}

#[test]
fn token_stream_ends_with_the_end_of_the_text() {
    let (items, failure) = tokenize("a /* c */ b");
    assert!(failure.is_none());
    assert_eq!(items.last().map(|i| i.kind.clone()), Some(TokKind::EoF));
    for pair in items.windows(2) {
        assert!(pair[0].span.end <= pair[1].span.start);
    }
    let (empty, failure) = tokenize("");
    assert!(failure.is_none());
    assert_eq!(empty.len(), 1);
    assert_eq!(empty[0].kind, TokKind::EoF);
}

#[test]
fn empty_try_finally_shape() {
    match parses("try {} finally {}") {
        Program::Script(parts) => match &parts[0] {
            ProgramPart::Stmt(Stmt::Try(t)) => {
                assert!(t.block.is_empty());
                assert!(t.handler.is_none());
                assert_eq!(t.finalizer, Some(vec![]));
            }
            other => panic!("unexpected part {:?}", other),
        },
        other => panic!("unexpected program {:?}", other),
    }
}

#[test]
fn namespace_import_shape() {
    let mut p = Builder::new().module(true).js("import * as ns from 'm';").build().unwrap();
    match p.parse().unwrap() {
        Program::Mod(parts) => match &parts[0] {
            ProgramPart::Decl(Decl::Import(i)) => {
                assert_eq!(i.specifiers, vec![ressa::ast::ImportSpecifier::Namespace("ns".to_string())]);
                assert_eq!(i.source, Literal::String("'m'".to_string()));
            }
            other => panic!("unexpected part {:?}", other),
        },
        other => panic!("unexpected program {:?}", other),
    }
}

#[test]
fn empty_for_loop_with_empty_body() {
    assert_eq!(
        parses("for (;;);"),
        Program::Script(vec![ProgramPart::Stmt(Stmt::For(ForStmt {
            init: None,
            test: None,
            update: None,
            body: Box::new(Stmt::Empty),
        }))])
    );
}

#[test]
fn arrow_function_without_parameters() {
    match parses("() => x;") {
        Program::Script(parts) => match &parts[0] {
            ProgramPart::Stmt(Stmt::Expr(Expr::ArrowFunction(f))) => {
                assert_eq!(f.params.len(), 0);
                assert!(f.expression);
            }
            other => panic!("unexpected part {:?}", other),
        },
        other => panic!("unexpected program {:?}", other),
    }
}

#[test]
fn short_form_properties() {
    let short = |name: &str| {
        ObjectProperty::Property(Property {
            key: PropertyKey::Expr(ident(name)),
            value: PropertyValue::NoValue,
            kind: PropertyKind::Init,
            method: false,
            computed: false,
            short_hand: true,
        })
    };
    assert_eq!(
        parses("({a, b});"),
        Program::Script(vec![ProgramPart::Stmt(Stmt::Expr(Expr::Object(vec![
            short("a"),
            short("b"),
        ])))])
    );
}

#[test]
fn default_export_of_a_number() {
    let mut p = Builder::new().module(true).js("export default 1;").build().unwrap();
    match p.parse() {
        Ok(Program::Mod(parts)) => {
            assert_eq!(
                parts[0],
                ProgramPart::Decl(Decl::Export(Box::new(ModExport::Default(
                    DefaultExportDecl::Expr(Expr::Literal(Literal::Number("1".to_string())))
                ))))
            );
        }
        other => panic!("unexpected result {:?}", other),
    }
}

#[test]
fn for_in_loop_tree() {
    assert_eq!(
        parses("for (x in o);"),
        Program::Script(vec![ProgramPart::Stmt(Stmt::ForIn(ForInStmt {
            left: LoopLeft::Expr(ident("x")),
            right: ident("o"),
            body: Box::new(Stmt::Empty),
        }))])
    );
}

#[test]
fn for_of_loop_tree() {
    assert_eq!(
        parses("for (let x of y);"),
        Program::Script(vec![ProgramPart::Stmt(Stmt::ForOf(ForOfStmt {
            left: LoopLeft::Variable(
                VariableKind::Let,
                VariableDecl { id: Pat::Identifier("x".to_string()), init: None }
            ),
            right: ident("y"),
            body: Box::new(Stmt::Empty),
            is_await: false,
        }))])
    );
}

#[test]
fn for_loop_with_two_bindings() {
    assert_eq!(
        parses("for (var i = 0, j = 1;;);"),
        Program::Script(vec![ProgramPart::Stmt(Stmt::For(ForStmt {
            init: Some(LoopInit::Variable(
                VariableKind::Var,
                vec![
                    VariableDecl { id: Pat::Identifier("i".to_string()), init: Some(number("0")) },
                    VariableDecl { id: Pat::Identifier("j".to_string()), init: Some(number("1")) },
                ]
            )),
            test: None,
            update: None,
            body: Box::new(Stmt::Empty),
        }))])
    );
}

#[test]
fn label_and_number_come_apart() {
    let mut p = Parser::new("lineFeed:0\n0;").unwrap();
    assert_eq!(
        p.next(),
        Some(Ok(ProgramPart::Stmt(Stmt::Labeled(LabeledStmt {
            label: "lineFeed".to_string(),
            body: Box::new(Stmt::Expr(number("0"))),
        }))))
    );
    assert_eq!(p.next(), Some(Ok(ProgramPart::Stmt(Stmt::Expr(number("0"))))));
    assert_eq!(p.next(), None);
}

#[test]
fn string_after_a_statement_is_no_directive() {
    assert_eq!(
        parses("a; 'b';"),
        Program::Script(vec![
            ProgramPart::Stmt(Stmt::Expr(ident("a"))),
            ProgramPart::Stmt(Stmt::Expr(Expr::Literal(Literal::String("'b'".to_string())))),
        ])
    );
}

#[test]
fn named_export_with_a_new_name() {
    let mut p = Builder::new().module(true).js("export { a as b };").build().unwrap();
    match p.parse() {
        Ok(Program::Mod(parts)) => {
            assert_eq!(
                parts[0],
                ProgramPart::Decl(Decl::Export(Box::new(ModExport::Named(
                    NamedExportDecl::Specifier(
                        vec![ExportSpecifier {
                            local: "a".to_string(),
                            exported: Some("b".to_string()),
                        }],
                        None
                    )
                ))))
            );
        }
        other => panic!("unexpected result {:?}", other),
    }
}

#[test]
fn statements_ending_in_semicolons_come_one_by_one() {
    let mut p = Parser::new("x; 1;").unwrap();
    assert_eq!(p.next(), Some(Ok(ProgramPart::Stmt(Stmt::Expr(ident("x"))))));
    assert_eq!(p.next(), Some(Ok(ProgramPart::Stmt(Stmt::Expr(number("1"))))));
    assert_eq!(p.next(), None);
}

#[test]
fn texts_whose_string_failure_falls_inside_a_character_are_refused() {
    let (items, failure) = tokenize("\"\u{e9}");
    assert!(items.is_empty());
    assert!(failure.is_some());
    assert!(Parser::new("x = \"a\u{2028}\";").is_err());
    assert!(Parser::new("'\u{e9}").is_err());
}

#[test]
fn two_scans_of_one_text_agree() {
    let (a, fa) = tokenize("let x = 1; // c\nx");
    let (b, fb) = tokenize("let x = 1; // c\nx");
    assert_eq!(a, b);
    assert_eq!(fa, fb);
    let p = Parser::new("x;");
    let q = Builder::new().js("x;").build();
    assert_eq!(p.is_ok(), q.is_ok());
}

#[test]
fn non_ascii_inside_a_text_is_scanned() {
    let mut p = Parser::new("x = '\u{e9}';").unwrap();
    assert!(p.parse().is_ok());
}

fn empty_method(name: &str, kind: PropertyKind) -> Property {
    Property {
        key: PropertyKey::Expr(ident(name)),
        value: PropertyValue::Expr(Expr::Function(Function {
            id: None,
            params: vec![],
            body: vec![],
            generator: false,
            is_async: false,
        })),
        kind,
        method: true,
        computed: false,
        short_hand: false,
    }
}

#[test]
fn class_methods_and_constructor() {
    assert_eq!(
        parses("class A { constructor() {} m() {} }"),
        Program::Script(vec![ProgramPart::Decl(Decl::Class(Class {
            id: Some("A".to_string()),
            super_class: None,
            body: vec![
                empty_method("constructor", PropertyKind::Ctor),
                empty_method("m", PropertyKind::Method),
            ],
        }))])
    );
}

#[test]
fn property_with_a_value() {
    assert_eq!(
        parses("({a: 1});"),
        Program::Script(vec![ProgramPart::Stmt(Stmt::Expr(Expr::Object(vec![
            ObjectProperty::Property(Property {
                key: PropertyKey::Expr(ident("a")),
                value: PropertyValue::Expr(number("1")),
                kind: PropertyKind::Init,
                method: false,
                computed: false,
                short_hand: false,
            })
        ])))])
    );
}

#[test]
fn tighter_operator_first_then_looser() {
    let product = Expr::Binary(BinaryExpr {
        operator: BinaryOperator::Times,
        left: Box::new(ident("a")),
        right: Box::new(ident("b")),
    });
    assert_eq!(
        parses("a * b + c;"),
        Program::Script(vec![ProgramPart::Stmt(Stmt::Expr(Expr::Binary(BinaryExpr {
            operator: BinaryOperator::Plus,
            left: Box::new(product),
            right: Box::new(ident("c")),
        })))])
    );
}

#[test]
fn logical_operators_make_logical_expressions() {
    assert_eq!(
        parses("a && b;"),
        Program::Script(vec![ProgramPart::Stmt(Stmt::Expr(Expr::Logical(LogicalExpr {
            operator: LogicalOperator::And,
            left: Box::new(ident("a")),
            right: Box::new(ident("b")),
        })))])
    );
}

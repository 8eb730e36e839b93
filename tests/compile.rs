use ircomp::grammar::ParseError;
use ircomp::lexer::{Lex, LexError};
use ircomp::parser::{compile, Compiled, Par, Type};
use ircomp::token::Tok;

fn run(src: &str) -> Compiled {
    compile(src.as_bytes().to_vec())
}

fn ir(src: &str) -> String {
    String::from_utf8(run(src).ir).unwrap()
}

fn lex_all(src: &str) -> Vec<Tok> {
    let mut lex = Lex::make(src.as_bytes().to_vec());
    let mut toks = Vec::new();
    loop {
        let t = lex.next();
        if t == Tok::Empty {
            break;
        }
        toks.push(t);
    }
    toks
}

#[test]
fn add_function_ir() {
    let r = run("func add(int a, int b) { return a + b; }");
    assert_eq!(
        String::from_utf8(r.ir).unwrap(),
        "%func add(%int a, %int b)\n%add temp0, a, b\n%ret temp0\n%endfunc\n"
    );
    assert_eq!(r.parse_error, None);
    assert_eq!(r.lex_error, None);
}

#[test]
fn array_main_ir() {
    let r = run("func main() { int[5] arr; arr[0] = 3; print(arr[0]); }");
    assert_eq!(
        String::from_utf8(r.ir).unwrap(),
        "%func main()\n%int[] arr, 5\n%mov [arr+0], 3\n%mov temp0, [arr+0]\n%out temp0\n%endfunc\n"
    );
    assert_eq!(r.parse_error, None);
}

#[test]
fn duplicate_parameter_rejected() {
    let r = run("func f(int a, int a) { return a; }");
    assert_eq!(r.parse_error, Some(ParseError::DuplicateParameter));
    assert!(r.ir.is_empty());
}

#[test]
fn lone_bang_reported_with_line() {
    let r = run("func f() { return 1; }\n\n!");
    assert_eq!(r.lex_error, Some(LexError { byte: b'!', line: 3 }));
    assert_eq!(r.parse_error, None);
    assert_eq!(r.line, 3);
    assert_eq!(String::from_utf8(r.ir).unwrap(), "%func f()\n%ret 1\n%endfunc\n");
}

#[test]
fn truncated_input_rejected() {
    let r = run("func f() { return 1;");
    assert_eq!(r.parse_error, Some(ParseError::InvalidSyntax));
    assert_eq!(String::from_utf8(r.ir).unwrap(), "%func f()\n%ret 1\n%endfunc\n");
}

#[test]
fn maximal_munch_number_and_identifier() {
    assert_eq!(lex_all("12"), vec![Tok::Number(b"12".to_vec())]);
    assert_eq!(lex_all("abc1"), vec![Tok::Identifier(b"abc1".to_vec())]);
    assert_eq!(
        lex_all("ab12+7"),
        vec![Tok::Identifier(b"ab12".to_vec()), Tok::Plus, Tok::Number(b"7".to_vec())]
    );
}

#[test]
fn keywords_and_operators() {
    assert_eq!(
        lex_all("func return int print read while if else break continue funcs"),
        vec![
            Tok::Func,
            Tok::Return,
            Tok::Int,
            Tok::Print,
            Tok::Read,
            Tok::While,
            Tok::If,
            Tok::Else,
            Tok::Break,
            Tok::Continue,
            Tok::Identifier(b"funcs".to_vec()),
        ]
    );
    assert_eq!(
        lex_all("= == < <= > >= != ( ) { } [ ] , ; + - * / %"),
        vec![
            Tok::Assign,
            Tok::Equality,
            Tok::Less,
            Tok::LessEqual,
            Tok::Greater,
            Tok::GreaterEqual,
            Tok::NotEqual,
            Tok::LeftParen,
            Tok::RightParen,
            Tok::LeftCurly,
            Tok::RightCurly,
            Tok::LeftBracket,
            Tok::RightBracket,
            Tok::Comma,
            Tok::Semicolon,
            Tok::Plus,
            Tok::Subtract,
            Tok::Multiply,
            Tok::Divide,
            Tok::Modulus,
        ]
    );
}

#[test]
fn operator_at_end_of_input() {
    assert_eq!(lex_all("a<"), vec![Tok::Identifier(b"a".to_vec()), Tok::Less]);
    assert_eq!(lex_all("="), vec![Tok::Assign]);
}

#[test]
fn bang_at_end_is_an_error() {
    let mut lex = Lex::make(b"x !".to_vec());
    assert_eq!(lex.next(), Tok::Identifier(b"x".to_vec()));
    assert_eq!(lex.next(), Tok::Empty);
    assert_eq!(lex.problem, Some(LexError { byte: b'!', line: 1 }));
}

#[test]
fn error_is_sticky() {
    let mut lex = Lex::make(b"a $ b".to_vec());
    assert_eq!(lex.next(), Tok::Identifier(b"a".to_vec()));
    assert_eq!(lex.next(), Tok::Empty);
    assert_eq!(lex.next(), Tok::Empty);
    assert_eq!(lex.problem, Some(LexError { byte: b'$', line: 1 }));
}

#[test]
fn line_breaks_and_comments() {
    let mut lex = Lex::make(b"a\r\nb\rc\n# note\nd".to_vec());
    assert_eq!(lex.next(), Tok::Identifier(b"a".to_vec()));
    assert_eq!(lex.line, 1);
    assert_eq!(lex.next(), Tok::Identifier(b"b".to_vec()));
    assert_eq!(lex.line, 2);
    assert_eq!(lex.next(), Tok::Identifier(b"c".to_vec()));
    assert_eq!(lex.line, 3);
    assert_eq!(lex.next(), Tok::Identifier(b"d".to_vec()));
    assert_eq!(lex.line, 5);
    assert_eq!(lex.next(), Tok::Empty);
}

#[test]
fn layout_does_not_change_ir() {
    let a = ir("func f(int a){int x=a*2;print(x);}");
    let b = ir("func f( int a )\n{\n\tint x = a * 2; # double\n   print ( x ) ;\r\n}\n");
    assert_eq!(a, b);
    assert_eq!(a, "%func f(%int a)\n%mult temp0, a, 2\n%int x\n%mov x, temp0\n%out x\n%endfunc\n");
}

#[test]
fn temps_are_fresh_and_increasing() {
    let out = ir("func f() { return a * b + c * d; } func g() { return x - y; }");
    assert_eq!(
        out,
        "%func f()\n%mult temp0, a, b\n%mult temp1, c, d\n%add temp2, temp0, temp1\n%ret temp2\n%endfunc\n\
         %func g()\n%sub temp3, x, y\n%ret temp3\n%endfunc\n"
    );
}

#[test]
fn precedence_and_left_associativity() {
    let out = ir("func f() { return a - b - c == d < e; }");
    assert_eq!(
        out,
        "%func f()\n%sub temp0, a, b\n%sub temp1, temp0, c\n%lt temp2, d, e\n%eq temp3, temp1, temp2\n%ret temp3\n%endfunc\n"
    );
    let out = ir("func f() { return (a + b) % c / d != e >= f <= g > h; }");
    assert_eq!(
        out,
        "%func f()\n%add temp0, a, b\n%mod temp1, temp0, c\n%div temp2, temp1, d\n\
         %ge temp3, e, f\n%le temp4, temp3, g\n%gt temp5, temp4, h\n%neq temp6, temp2, temp5\n%ret temp6\n%endfunc\n"
    );
}

#[test]
fn while_loop() {
    let out = ir("func f() { while (a < b) { a = a + 1; } }");
    assert_eq!(
        out,
        "%func f()\nwhile(%lt temp0, a, b\ncond(temp0))\n%add temp1, a, 1\n%mov a, temp1\n%endfunc\n"
    );
}

#[test]
fn if_else_break_continue() {
    let out = ir("func f() { if (a) { break; } else { continue; } if (b) { } }");
    assert_eq!(out, "%func f()\nif(cond(a))\nbreak\nelse continue\nif(cond(b))\n%endfunc\n");
}

#[test]
fn call_keeps_trailing_separator() {
    let out = ir("func f() { x = g(a, b + c); }");
    assert_eq!(
        out,
        "%func f()\n%add temp0, b, c\n%call temp1, g(a, temp0, )\n%mov x, temp1\n%endfunc\n"
    );
}

#[test]
fn read_scalar_and_element() {
    let out = ir("func f() { int x; read(x); read(v[2]); }");
    assert_eq!(out, "%func f()\n%int x\n%input x\n%input temp0\n%mov [v+2], temp0\n%endfunc\n");
}

#[test]
fn parameter_list_with_trailing_comma() {
    assert_eq!(ir("func f(int a,) { }"), "%func f(%int a, )\n%endfunc\n");
    assert_eq!(ir("func f(int a) { }"), "%func f(%int a)\n%endfunc\n");
}

#[test]
fn each_parse_error() {
    let cases: Vec<(&str, ParseError)> = vec![
        ("int x;", ParseError::InvalidToken),
        ("func (", ParseError::NotFunction),
        ("func f(x) { }", ParseError::BadParameters),
        ("func f() return", ParseError::MissingLeftCurly),
        ("func f() { while (a) x }", ParseError::MissingLeftCurly),
        ("func f() { return 1 }", ParseError::MissingSemicolon),
        ("func f() { 1; }", ParseError::InvalidSyntax),
        ("func f() { return a[1; }", ParseError::ExpectedRightBracket),
        ("func f() { return g(1; }", ParseError::ExpectedCallClose),
        ("func f() { return (1; }", ParseError::ExpectedRightParen),
        ("func f() { return ; }", ParseError::UnexpectedToken),
        ("func f() { return g(1,", ParseError::ExpectedArgument),
    ];
    for (src, err) in cases {
        assert_eq!(run(src).parse_error, Some(err), "{}", src);
    }
}

#[test]
fn partial_ir_before_error() {
    let r = run("func f() { x = 1; y = 2 }");
    assert_eq!(r.parse_error, Some(ParseError::MissingSemicolon));
    assert_eq!(String::from_utf8(r.ir).unwrap(), "%func f()\n%mov x, 1\n%mov y, 2\n%endfunc\n");
}

#[test]
fn empty_source() {
    let r = run("  # nothing\n");
    assert!(r.ir.is_empty());
    assert_eq!(r.parse_error, None);
    assert_eq!(r.lex_error, None);
}

#[test]
fn scope_lookup_finds_parameters() {
    let mut p = Par::make(b"{ }".to_vec());
    assert_eq!(p.open_scope(&vec![b"a".to_vec(), b"bc".to_vec()]), Some(()));
    assert_eq!(p.type_check(2, &b"bc".to_vec(), Type::Var), Some(()));
    assert_eq!(p.type_check(2, &b"bc".to_vec(), Type::Arr), None);
    assert_eq!(p.type_check(2, &b"zz".to_vec(), Type::Var), None);
    assert_eq!(p.type_check(1, &b"a".to_vec(), Type::Var), None);
    let mut q = Par::make(b"{ }".to_vec());
    assert_eq!(q.open_scope(&vec![b"a".to_vec(), b"a".to_vec()]), None);
    assert_eq!(q.problem, Some(ParseError::DuplicateParameter));
}

#[test]
fn trailing_carriage_return_counts_as_line_break() {
    let mut lex = Lex::make(b"a\r".to_vec());
    assert_eq!(lex.next(), Tok::Identifier(b"a".to_vec()));
    assert_eq!(lex.next(), Tok::Empty);
    assert_eq!(lex.line, 2);
    let r = run("func f() { }\r!");
    assert_eq!(r.lex_error, Some(LexError { byte: b'!', line: 2 }));
    assert_eq!(r.line, 2);
}

#[test]
fn missing_brace_still_emits_header() {
    let r = run("func f(int a) return");
    assert_eq!(r.parse_error, Some(ParseError::MissingLeftCurly));
    assert_eq!(String::from_utf8(r.ir).unwrap(), "%func f(%int a)\n%endfunc\n");
}

#[test]
fn lookahead_pulls_only_what_is_missing() {
    let mut p = Par::make(b"func f ( ) { }".to_vec());
    p.tokens(2);
    assert_eq!(p.lex.pos, 6);
    p.tokens(1);
    assert_eq!(p.lex.pos, 6);
    p.consume(5);
    p.tokens(1);
    assert_eq!(p.peek(0), &Tok::LeftParen);
    p.tokens(4);
    assert_eq!(p.peek(3), &Tok::RightCurly);
}

#[test]
fn block_restores_scope_stack() {
    let mut p = Par::make(b"{ int x; }".to_vec());
    assert_eq!(p.statements(), Some(()));
    assert_eq!(p.types.len(), 1);
    assert_eq!(String::from_utf8(p.out.clone()).unwrap(), "%int x\n");
}

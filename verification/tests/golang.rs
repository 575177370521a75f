use lex::error::{LexError, LexErrorKind};
use lex::lang::golang::{make_lexer, GoKeyword, GoLiteral, GoOperator, GoToken};
use lex::lexer::Step;
use lex::position::Position;
use lex::stream::{collect, Tokens};
use lex::token::Token;

#[test]
fn test_rune() {
    let lexer = make_lexer().unwrap();

    let runes_source = r"'a'
'ä'
'本'
'\t'
'\000'
'\007'
'\377'
'\x07'
'\xff'
'\u12e4'
'\U00101234'
'\''
";
    for rune in runes_source.lines() {
        match lexer.step(rune) {
            Step::Token { token, .. } => {
                assert_eq!(token, GoToken::Literal(GoLiteral::Rune(rune)))
            }
            _ => panic!("no rune in {}", rune),
        }
    }
}

const KEYWORDS: [(GoKeyword, &str); 25] = [
    (GoKeyword::Break, "Break"),
    (GoKeyword::Default, "Default"),
    (GoKeyword::Func, "Func"),
    (GoKeyword::Interface, "Interface"),
    (GoKeyword::Select, "Select"),
    (GoKeyword::Case, "Case"),
    (GoKeyword::Defer, "Defer"),
    (GoKeyword::Go, "Go"),
    (GoKeyword::MapKeyword, "Map"),
    (GoKeyword::Struct, "Struct"),
    (GoKeyword::Chan, "Chan"),
    (GoKeyword::Else, "Else"),
    (GoKeyword::Goto, "Goto"),
    (GoKeyword::Package, "Package"),
    (GoKeyword::Switch, "Switch"),
    (GoKeyword::Const, "Const"),
    (GoKeyword::Fallthrough, "Fallthrough"),
    (GoKeyword::If, "If"),
    (GoKeyword::Range, "Range"),
    (GoKeyword::Type, "Type"),
    (GoKeyword::Continue, "Continue"),
    (GoKeyword::For, "For"),
    (GoKeyword::Import, "Import"),
    (GoKeyword::Return, "Return"),
    (GoKeyword::Var, "Var"),
];

const OPERATORS: [GoOperator; 47] = [
    GoOperator::Add,
    GoOperator::Sub,
    GoOperator::Mul,
    GoOperator::Quo,
    GoOperator::Rem,
    GoOperator::And,
    GoOperator::Or,
    GoOperator::Xor,
    GoOperator::Shl,
    GoOperator::Shr,
    GoOperator::AndNot,
    GoOperator::AddAssign,
    GoOperator::SubAssign,
    GoOperator::QuoAssign,
    GoOperator::RemAssign,
    GoOperator::MulAssign,
    GoOperator::AndAssign,
    GoOperator::OrAssign,
    GoOperator::XorAssign,
    GoOperator::ShlAssign,
    GoOperator::ShrAssign,
    GoOperator::AndNotAssign,
    GoOperator::LAnd,
    GoOperator::LOr,
    GoOperator::Arrow,
    GoOperator::Inc,
    GoOperator::Dec,
    GoOperator::Eql,
    GoOperator::Lss,
    GoOperator::Gtr,
    GoOperator::Assign,
    GoOperator::Not,
    GoOperator::NEq,
    GoOperator::LEq,
    GoOperator::GEq,
    GoOperator::Define,
    GoOperator::Ellipsis,
    GoOperator::LParen,
    GoOperator::LBrack,
    GoOperator::LBrace,
    GoOperator::Comma,
    GoOperator::Period,
    GoOperator::RParen,
    GoOperator::RBrack,
    GoOperator::RBrace,
    GoOperator::Semicolon,
    GoOperator::Colon,
];

#[test]
fn go_keyword_is_described_by_its_name() {
    for (keyword, name) in KEYWORDS {
        assert_eq!(keyword.as_str(), name);
        assert_eq!(GoToken::Keyword(keyword).describe(), name);
    }
}

#[test]
fn go_keyword_name_is_its_debug_rendering() {
    for (keyword, name) in KEYWORDS {
        if keyword != GoKeyword::MapKeyword {
            assert_eq!(format!("{:?}", keyword), name);
        }
    }
}

#[test]
fn go_operator_is_described_by_its_debug_rendering() {
    for operator in OPERATORS {
        assert_eq!(operator.as_str(), format!("{:?}", operator));
        let token = GoToken::Operator(operator);
        assert_eq!(token.describe(), format!("{:?}", token));
    }
    assert_eq!(GoToken::Operator(GoOperator::Dec).describe(), "Operator(Dec)");
    assert_eq!(GoToken::Operator(GoOperator::AndNotAssign).describe(), "Operator(AndNotAssign)");
}

#[test]
fn go_identifier_is_described_as_it_is_spelled() {
    assert_eq!(GoToken::Ident("main").describe(), "main");
    assert_eq!(GoToken::Ident("").describe(), "");
    assert_eq!(GoToken::Ident("größe").describe(), "größe");
}

#[test]
fn go_literal_is_described_by_its_debug_rendering() {
    for text in ["", "42", "'a'", "a\"b", "a\\b", "tab\there", "line\nbreak", "ä本", "\u{7f}\0"] {
        for literal in [
            GoLiteral::String(text),
            GoLiteral::Integer(text),
            GoLiteral::Float(text),
            GoLiteral::Imaginary(text),
            GoLiteral::Rune(text),
        ] {
            assert_eq!(literal.render(), format!("{:?}", literal));
            let token = GoToken::Literal(literal);
            assert_eq!(token.describe(), format!("{:?}", token));
        }
    }
    assert_eq!(
        GoToken::Literal(GoLiteral::Rune("'a'")).describe(),
        "Literal(Rune(\"'a'\"))"
    );
    assert_eq!(
        GoToken::Literal(GoLiteral::String("a\"b\n")).describe(),
        "Literal(String(\"a\\\"b\\n\"))"
    );
}

#[test]
fn go_comment_is_described_by_its_debug_rendering() {
    for text in ["", " note", "a\"b", "two\nlines"] {
        let token = GoToken::Comment(text);
        assert_eq!(token.describe(), format!("{:?}", token));
    }
    assert_eq!(GoToken::Comment(" x\t").describe(), "Comment(\" x\\t\")");
}

#[test]
fn go_descriptor_names_the_category_whatever_the_payload() {
    assert_eq!(GoToken::Ident("a").descriptor(), "Ident");
    assert_eq!(GoToken::Ident("b").descriptor(), "Ident");
    assert_eq!(GoToken::Keyword(GoKeyword::Func).descriptor(), "Keyword");
    assert_eq!(GoToken::Keyword(GoKeyword::Var).descriptor(), "Keyword");
    assert_eq!(GoToken::Operator(GoOperator::Add).descriptor(), "Operator");
    assert_eq!(GoToken::Operator(GoOperator::Dec).descriptor(), "Operator");
    assert_eq!(GoToken::Literal(GoLiteral::Rune("'a'")).descriptor(), "Literal");
    assert_eq!(GoToken::Literal(GoLiteral::Integer("1")).descriptor(), "Literal");
    assert_eq!(GoToken::Comment("x").descriptor(), "Comment");
}

#[test]
fn go_minus_is_the_one_operator() {
    let lexer = make_lexer().unwrap();
    match lexer.step("-'a'") {
        Step::Token { token, lexeme, remaining } => {
            assert_eq!(token, GoToken::Operator(GoOperator::Dec));
            assert_eq!(lexeme, "-");
            assert_eq!(remaining, "'a'");
        }
        _ => panic!("no operator"),
    }
    assert!(matches!(lexer.step("+"), Step::Unrecognized { remaining: "+" }));
}

#[test]
fn go_rune_takes_one_character_or_one_escape() {
    let lexer = make_lexer().unwrap();
    for text in ["''", "'ab'", "'\\q'", "'\\08'", "'\\xg0'", "'\\u12'", "'\n'", "'\\'", "a"] {
        assert!(
            matches!(lexer.step(text), Step::Unrecognized { .. }),
            "a rune was found in {:?}",
            text
        );
    }
    match lexer.step("'\\n'x") {
        Step::Token { token, lexeme, remaining } => {
            assert_eq!(token, GoToken::Literal(GoLiteral::Rune("'\\n'")));
            assert_eq!(lexeme, "'\\n'");
            assert_eq!(remaining, "x");
        }
        _ => panic!("no rune"),
    }
}

#[test]
fn go_skips_no_whitespace() {
    let lexer = make_lexer().unwrap();
    assert!(matches!(lexer.step(" 'a'"), Step::Unrecognized { remaining: " 'a'" }));
    assert!(matches!(lexer.step(""), Step::EndOfInput));
    let mut stream = Tokens::open(&lexer, "-'a'-\n", "test.go");
    let items = collect(&mut stream);
    assert_eq!(items.len(), 4);
    assert_eq!(
        items[3],
        Err(LexError {
            kind: LexErrorKind::UnrecognizedInput,
            position: Some(Position { line: 1, column: 6, byte_offset: 5 }),
        })
    );
}

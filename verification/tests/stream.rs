use lex::error::{LexError, LexErrorKind};
use lex::lang::bnf::{make_lexer, BnfOperator, BnfToken};
use lex::lexer::Step;
use lex::position::Position;
use lex::stream::{collect, TokenMeta, TokenSource, Tokens};

fn at(line: usize, column: usize, byte_offset: usize) -> Position {
    Position { line, column, byte_offset }
}

fn meta<'a>(
    token: BnfToken<'a>,
    position: Position,
    lexeme: &'a str,
) -> Result<TokenMeta<'a, BnfToken<'a>>, LexError> {
    Ok(TokenMeta { token, position, source_name: "test.bnf", lexeme })
}

#[test]
fn a_stream_opens_at_the_start_of_the_text() {
    let lexer = make_lexer().unwrap();
    let stream = Tokens::open(&lexer, "<A>", "test.bnf");
    assert_eq!(stream.position(), at(1, 1, 0));
    assert_eq!(stream.remaining(), "<A>");
    assert_eq!(stream.source_name(), "test.bnf");
    assert!(!stream.is_halted());
}

#[test]
fn try_open_opens_what_open_opens() {
    let lexer = make_lexer().unwrap();
    let mut stream = Tokens::try_open(&lexer, ";", "test.bnf").unwrap();
    assert_eq!(stream.position(), at(1, 1, 0));
    assert_eq!(stream.next_token(), Some(meta(BnfToken::Delimiter, at(1, 1, 0), ";")));
}

#[test]
fn every_token_carries_the_position_where_its_lexeme_begins() {
    let lexer = make_lexer().unwrap();
    let source = "\n        <A> ::= <B> | \"c\" <D> ;\n    ";
    let mut stream = Tokens::open(&lexer, source, "test.bnf");
    let items = collect(&mut stream);
    assert_eq!(
        items,
        vec![
            meta(BnfToken::NonTerminal("A"), at(2, 9, 9), "<A>"),
            meta(BnfToken::Operator(BnfOperator::Def), at(2, 13, 13), "::="),
            meta(BnfToken::NonTerminal("B"), at(2, 17, 17), "<B>"),
            meta(BnfToken::Operator(BnfOperator::Alt), at(2, 21, 21), "|"),
            meta(BnfToken::Terminal("c"), at(2, 23, 23), "\"c\""),
            meta(BnfToken::NonTerminal("D"), at(2, 27, 27), "<D>"),
            meta(BnfToken::Delimiter, at(2, 31, 31), ";"),
        ]
    );
    assert_eq!(stream.position(), at(3, 5, 37));
    assert_eq!(stream.remaining(), "");
    assert!(!stream.is_halted());
}

#[test]
fn the_cursor_stands_behind_the_token_that_was_pulled() {
    let lexer = make_lexer().unwrap();
    let mut stream = Tokens::open(&lexer, "<A>\n  ::= ;", "test.bnf");
    assert_eq!(stream.next_token(), Some(meta(BnfToken::NonTerminal("A"), at(1, 1, 0), "<A>")));
    assert_eq!(stream.position(), at(1, 4, 3));
    assert_eq!(stream.remaining(), "\n  ::= ;");
    assert_eq!(
        stream.next_token(),
        Some(meta(BnfToken::Operator(BnfOperator::Def), at(2, 3, 6), "::="))
    );
    assert_eq!(stream.position(), at(2, 6, 9));
    assert_eq!(stream.remaining(), " ;");
    assert_eq!(stream.next_token(), Some(meta(BnfToken::Delimiter, at(2, 7, 10), ";")));
    assert_eq!(stream.position(), at(2, 8, 11));
    assert_eq!(stream.next_token(), None);
    assert_eq!(stream.position(), at(2, 8, 11));
}

#[test]
fn columns_count_characters_and_offsets_count_bytes() {
    let lexer = make_lexer().unwrap();
    let mut stream = Tokens::open(&lexer, "<ä本> \"é\" ;", "test.bnf");
    assert_eq!(
        collect(&mut stream),
        vec![
            meta(BnfToken::NonTerminal("ä本"), at(1, 1, 0), "<ä本>"),
            meta(BnfToken::Terminal("é"), at(1, 6, 8), "\"é\""),
            meta(BnfToken::Delimiter, at(1, 10, 13), ";"),
        ]
    );
}

#[test]
fn whitespace_alone_yields_nothing() {
    let lexer = make_lexer().unwrap();
    for source in ["", " ", "\n", " \t\r\n  \n"] {
        let mut stream = Tokens::open(&lexer, source, "test.bnf");
        assert_eq!(collect(&mut stream), vec![]);
        assert!(!stream.is_halted());
        assert_eq!(stream.remaining(), "");
        assert_eq!(stream.position(), Position::start().advance(source));
    }
}

#[test]
fn the_end_of_input_is_reached_once_and_stays() {
    let lexer = make_lexer().unwrap();
    let mut stream = Tokens::open(&lexer, "; \n ", "test.bnf");
    assert!(stream.next_token().is_some());
    for _ in 0..3 {
        assert_eq!(stream.next_token(), None);
        assert_eq!(stream.position(), at(2, 2, 4));
        assert_eq!(stream.remaining(), "");
    }
}

#[test]
fn unrecognized_input_is_reported_at_its_position() {
    let lexer = make_lexer().unwrap();
    let mut stream = Tokens::open(&lexer, "<A> ::= $", "test.bnf");
    let items = collect(&mut stream);
    assert_eq!(
        items,
        vec![
            meta(BnfToken::NonTerminal("A"), at(1, 1, 0), "<A>"),
            meta(BnfToken::Operator(BnfOperator::Def), at(1, 5, 4), "::="),
            Err(LexError { kind: LexErrorKind::UnrecognizedInput, position: Some(at(1, 9, 8)) }),
        ]
    );
    let errors = items.iter().filter(|item| item.is_err()).count();
    assert_eq!(errors, 1);
    assert!(items.last().unwrap().is_err());
}

#[test]
fn unrecognized_input_on_a_later_line_is_reported_there() {
    let lexer = make_lexer().unwrap();
    let mut stream = Tokens::open(&lexer, ";\n\n   ? ;", "test.bnf");
    assert_eq!(stream.next_token(), Some(meta(BnfToken::Delimiter, at(1, 1, 0), ";")));
    assert_eq!(stream.next_token(), Some(Err(LexError::unrecognized(at(3, 4, 6)))));
}

#[test]
fn a_stream_halts_for_good_on_the_first_error() {
    let lexer = make_lexer().unwrap();
    let mut stream = Tokens::open(&lexer, "$ ; ;", "test.bnf");
    assert_eq!(stream.next_token(), Some(Err(LexError::unrecognized(at(1, 1, 0)))));
    assert!(stream.is_halted());
    for _ in 0..3 {
        assert_eq!(stream.next_token(), None);
        assert!(stream.is_halted());
        assert_eq!(stream.position(), at(1, 1, 0));
        assert_eq!(stream.remaining(), "$ ; ;");
    }
    assert_eq!(collect(&mut stream), vec![]);
}

#[test]
fn two_streams_over_one_text_yield_the_same() {
    let lexer = make_lexer().unwrap();
    for source in ["<A> ::= <B> | \"c\" ;", "  <A>\n $ <B>", "", "\n\n"] {
        let mut first = Tokens::open(&lexer, source, "test.bnf");
        let mut second = Tokens::open(&lexer, source, "test.bnf");
        assert_eq!(collect(&mut first), collect(&mut second));
    }
}

#[test]
fn two_engines_of_one_table_yield_the_same() {
    let one = make_lexer().unwrap();
    let other = make_lexer().unwrap();
    let source = "<A> ::= <B> | \"c\" <D> ;";
    let mut first = Tokens::open(&one, source, "test.bnf");
    let mut second = Tokens::open(&other, source, "test.bnf");
    assert_eq!(collect(&mut first), collect(&mut second));
}

#[test]
fn two_streams_of_one_engine_do_not_touch_each_other() {
    let lexer = make_lexer().unwrap();
    let left = "<A> ::= \"x\" ;";
    let right = "\n<B> | $ <C>";
    let mut alone_left = Tokens::open(&lexer, left, "left");
    let mut alone_right = Tokens::open(&lexer, right, "right");
    let expected_left = collect(&mut alone_left);
    let expected_right = collect(&mut alone_right);
    assert_eq!(expected_left.len(), 4);
    assert_eq!(expected_right.len(), 3);

    let mut a = Tokens::open(&lexer, left, "left");
    let mut b = Tokens::open(&lexer, right, "right");
    let mut got_left = Vec::new();
    let mut got_right = Vec::new();
    loop {
        let from_a = a.next_token();
        let from_b = b.next_token();
        if from_a.is_none() && from_b.is_none() {
            break;
        }
        got_left.extend(from_a);
        got_right.extend(from_b);
    }
    assert_eq!(got_left, expected_left);
    assert_eq!(got_right, expected_right);
}

#[test]
fn collect_hands_out_what_is_left() {
    let lexer = make_lexer().unwrap();
    let mut stream = Tokens::open(&lexer, "; | ;", "test.bnf");
    assert!(stream.next_token().is_some());
    assert_eq!(
        collect(&mut stream),
        vec![
            meta(BnfToken::Operator(BnfOperator::Alt), at(1, 3, 2), "|"),
            meta(BnfToken::Delimiter, at(1, 5, 4), ";"),
        ]
    );
    assert_eq!(collect(&mut stream), vec![]);
}

#[test]
fn consume_moves_the_cursor_over_a_given_token() {
    let lexer = make_lexer().unwrap();
    let text = " \n ;rest";
    let mut stream = Tokens::open(&lexer, text, "test.bnf");
    let item = stream.consume(Step::Token {
        token: BnfToken::Delimiter,
        lexeme: &text[3..4],
        remaining: &text[4..],
    });
    assert_eq!(item, Some(meta(BnfToken::Delimiter, at(2, 2, 3), ";")));
    assert_eq!(stream.position(), at(2, 3, 4));
    assert_eq!(stream.remaining(), "rest");
    assert!(!stream.is_halted());
}

#[test]
fn consume_halts_at_given_unrecognized_input() {
    let lexer = make_lexer().unwrap();
    let text = "\n\n  ?x";
    let mut stream = Tokens::open(&lexer, text, "test.bnf");
    let item = stream.consume(Step::Unrecognized { remaining: &text[4..] });
    assert_eq!(item, Some(Err(LexError::unrecognized(at(3, 3, 4)))));
    assert_eq!(stream.position(), at(3, 3, 4));
    assert_eq!(stream.remaining(), "?x");
    assert!(stream.is_halted());
}

#[test]
fn consume_moves_to_the_end_at_a_given_end_of_input() {
    let lexer = make_lexer().unwrap();
    let mut stream = Tokens::open(&lexer, " \n\n ", "test.bnf");
    let item = stream.consume(Step::EndOfInput);
    assert_eq!(item, None);
    assert_eq!(stream.position(), at(3, 2, 4));
    assert_eq!(stream.remaining(), "");
    assert!(!stream.is_halted());
}

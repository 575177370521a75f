use lex::error::{LexError, LexErrorKind};
use lex::lang::bnf::{BnfOperator, BnfRule, BnfToken, BnfWhitespace};
use lex::lexer::{Lexer, LexerBuilder, Step};
use lex::token::NoSkip;

type Plain<'a> = Lexer<'a, BnfToken<'a>, NoSkip, BnfRule>;
type Spaced<'a> = Lexer<'a, BnfToken<'a>, BnfWhitespace, BnfRule>;

fn token_of<'a>(step: Step<'a, BnfToken<'a>>) -> (BnfToken<'a>, &'a str, &'a str) {
    match step {
        Step::Token { token, lexeme, remaining } => (token, lexeme, remaining),
        Step::EndOfInput => panic!("end of input"),
        Step::Unrecognized { remaining } => panic!("unrecognized at {:?}", remaining),
    }
}

#[test]
fn the_rule_added_first_wins_over_a_longer_match() {
    let lexer: Plain = LexerBuilder::new()
        .add("a", BnfRule::Delimiter)
        .add("ab", BnfRule::Def)
        .build()
        .unwrap();
    assert_eq!(token_of(lexer.step("ab")), (BnfToken::Delimiter, "a", "b"));
}

#[test]
fn the_order_of_registration_decides_between_two_matches() {
    let lexer: Plain = LexerBuilder::new()
        .add("ab", BnfRule::Def)
        .add("a", BnfRule::Delimiter)
        .build()
        .unwrap();
    assert_eq!(
        token_of(lexer.step("ab")),
        (BnfToken::Operator(BnfOperator::Def), "ab", "")
    );
    assert_eq!(token_of(lexer.step("ac")), (BnfToken::Delimiter, "a", "c"));
}

#[test]
fn a_rule_that_does_not_match_yields_to_the_next() {
    let lexer: Plain = LexerBuilder::new()
        .add("x", BnfRule::Def)
        .add("y", BnfRule::Alt)
        .add("z", BnfRule::Delimiter)
        .build()
        .unwrap();
    assert_eq!(token_of(lexer.step("zyx")), (BnfToken::Delimiter, "z", "yx"));
    assert_eq!(
        token_of(lexer.step("yx")),
        (BnfToken::Operator(BnfOperator::Alt), "y", "x")
    );
}

#[test]
fn a_pattern_matches_at_the_cursor_only() {
    let lexer: Plain = LexerBuilder::new().add("b", BnfRule::Delimiter).build().unwrap();
    match lexer.step("ab") {
        Step::Unrecognized { remaining } => assert_eq!(remaining, "ab"),
        _ => panic!("a match behind the cursor was taken"),
    }
}

#[test]
fn an_empty_match_is_no_match() {
    let lexer: Plain = LexerBuilder::new()
        .add("x*", BnfRule::Def)
        .add("a", BnfRule::Delimiter)
        .build()
        .unwrap();
    assert_eq!(token_of(lexer.step("ab")), (BnfToken::Delimiter, "a", "b"));
    assert_eq!(
        token_of(lexer.step("xxa")),
        (BnfToken::Operator(BnfOperator::Def), "xx", "a")
    );
    match lexer.step("b") {
        Step::Unrecognized { remaining } => assert_eq!(remaining, "b"),
        _ => panic!("an empty match made a token"),
    }
}

#[test]
fn a_constructor_reads_its_group() {
    let lexer: Plain = LexerBuilder::new()
        .add("<(.+?)>", BnfRule::NonTerminal)
        .add("'(.*?)'", BnfRule::Terminal)
        .build()
        .unwrap();
    assert_eq!(
        token_of(lexer.step("<ab>cd")),
        (BnfToken::NonTerminal("ab"), "<ab>", "cd")
    );
    assert_eq!(token_of(lexer.step("''x")), (BnfToken::Terminal(""), "''", "x"));
}

#[test]
fn a_constructor_without_its_group_takes_the_empty_text() {
    let lexer: Plain = LexerBuilder::new().add("ab", BnfRule::NonTerminal).build().unwrap();
    assert_eq!(token_of(lexer.step("ab")), (BnfToken::NonTerminal(""), "ab", ""));
}

#[test]
fn a_step_skips_the_whitespace_first() {
    let lexer: Spaced = LexerBuilder::new()
        .skip_whitespaces(BnfWhitespace)
        .add(";", BnfRule::Delimiter)
        .build()
        .unwrap();
    assert_eq!(token_of(lexer.step(" \t\r\n; x")), (BnfToken::Delimiter, ";", " x"));
    match lexer.step(" \n x") {
        Step::Unrecognized { remaining } => assert_eq!(remaining, "x"),
        _ => panic!("x was recognized"),
    }
}

#[test]
fn a_step_on_whitespace_alone_is_the_end_of_input() {
    let lexer: Spaced = LexerBuilder::new()
        .skip_whitespaces(BnfWhitespace)
        .add(";", BnfRule::Delimiter)
        .build()
        .unwrap();
    assert!(matches!(lexer.step(""), Step::EndOfInput));
    assert!(matches!(lexer.step(" \n\t \r\n"), Step::EndOfInput));
}

#[test]
fn a_builder_without_a_classifier_skips_nothing() {
    let lexer: Plain = LexerBuilder::new().add(";", BnfRule::Delimiter).build().unwrap();
    match lexer.step(" ;") {
        Step::Unrecognized { remaining } => assert_eq!(remaining, " ;"),
        _ => panic!("whitespace was skipped"),
    }
    assert!(matches!(lexer.step(""), Step::EndOfInput));
}

#[test]
fn the_classifier_installed_last_is_the_one_that_counts() {
    let lexer: Plain = LexerBuilder::new()
        .skip_whitespaces(BnfWhitespace)
        .skip_whitespaces(NoSkip)
        .add(";", BnfRule::Delimiter)
        .build()
        .unwrap();
    assert!(matches!(lexer.step(" ;"), Step::Unrecognized { .. }));
}

#[test]
fn an_engine_without_rules_recognizes_nothing() {
    let lexer: Plain = LexerBuilder::new().build().unwrap();
    assert!(matches!(lexer.step(""), Step::EndOfInput));
    assert!(matches!(lexer.step("a"), Step::Unrecognized { remaining: "a" }));
}

#[test]
fn build_fails_on_a_pattern_that_does_not_compile() {
    let built: Result<Plain, LexError> = LexerBuilder::new()
        .add("a", BnfRule::Delimiter)
        .add("(", BnfRule::Def)
        .add("b", BnfRule::Alt)
        .build();
    match built {
        Err(e) => {
            assert_eq!(e.kind, LexErrorKind::InvalidPattern);
            assert_eq!(e.position, None);
        }
        Ok(_) => panic!("a broken pattern was built"),
    }
}

#[test]
fn build_fails_on_a_pattern_that_only_the_anchor_breaks() {
    // alone this pattern compiles: the bracket closes a group that the
    // anchored pattern never opened
    let built: Result<Plain, LexError> =
        LexerBuilder::new().add("a)(b", BnfRule::Delimiter).build();
    assert_eq!(built.err(), Some(LexError::invalid_pattern()));
}

#[test]
fn a_step_leaves_the_engine_as_it_was() {
    let lexer: Plain = LexerBuilder::new().add("a", BnfRule::Delimiter).build().unwrap();
    for _ in 0..3 {
        assert_eq!(token_of(lexer.step("ab")), (BnfToken::Delimiter, "a", "b"));
        assert!(matches!(lexer.step("b"), Step::Unrecognized { .. }));
    }
}

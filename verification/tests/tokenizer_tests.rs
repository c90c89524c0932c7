use micron::errors::Code;
use micron::scanner::Char;
use micron::tokenizer::{tokenize, ErrorInfo, Token, TokenCheck, TokenInfo, TokenizerError};

fn lex(source: &str) -> Result<Vec<TokenInfo>, TokenizerError> {
    tokenize(Char::from_source(&source.to_string()))
}

fn syntax_error(start: usize, end: usize, msg: &str) -> TokenizerError {
    TokenizerError::SyntaxError(ErrorInfo { start, end, msg: Some(msg.to_string()) })
}

#[test]
fn string_literal_with_escape_spans_both_quotes() {
    assert_eq!(
        lex("\"abc\\n\""),
        Ok(vec![TokenInfo::new(0, 7, Token::Str("abc\n".to_string()))])
    );
}

#[test]
fn string_escapes() {
    assert_eq!(
        lex(r#""a\tb\"c\\d\qe""#),
        Ok(vec![TokenInfo::new(0, 15, Token::Str("a\tb\"c\\dqe".to_string()))])
    );
}

#[test]
fn string_keeps_spaces_brackets_and_line_feeds() {
    assert_eq!(
        lex("\"a [b] \nc\""),
        Ok(vec![TokenInfo::new(0, 10, Token::Str("a [b] \nc".to_string()))])
    );
}

#[test]
fn comment_is_skipped() {
    assert_eq!(
        lex("[ comment ] s:0 1"),
        Ok(vec![
            TokenInfo::new(12, 13, Token::Idn("s".to_string())),
            TokenInfo::new(13, 14, Token::Col),
            TokenInfo::new(14, 15, Token::Int(0)),
            TokenInfo::new(16, 17, Token::Int(1)),
        ])
    );
}

#[test]
fn comment_runs_to_the_first_closing_bracket() {
    assert_eq!(
        lex("[a [b \" \n] ~ ]"),
        Err(syntax_error(13, 13, "Invalid character"))
    );
    assert_eq!(lex("[]~"), Ok(vec![TokenInfo::new(2, 3, Token::Til)]));
}

#[test]
fn unterminated_string_is_a_syntax_error() {
    let e = lex("p:\"abc").unwrap_err();
    assert_eq!(e.error_code().to_string(), "E201");
    assert_eq!(e.error_code(), Code::ErrCode(201));
    assert_eq!(e.to_string(), "SyntaxError");
    assert_eq!(e, syntax_error(2, 2, "EOF while scanning for the string literal"));
    assert_eq!(lex("\""), Err(syntax_error(0, 0, "EOF while scanning for the string literal")));
}

#[test]
fn source_ending_in_an_escape_is_a_syntax_error() {
    assert_eq!(
        lex(" \"ab\\"),
        Err(syntax_error(4, 4, "EOF while scanning for the escape sequence"))
    );
}

#[test]
fn unterminated_comment_is_a_syntax_error() {
    assert_eq!(
        lex("~ [ never closed"),
        Err(syntax_error(2, 2, "EOF while scanning for the comment literal"))
    );
    assert_eq!(lex("["), Err(syntax_error(0, 0, "EOF while scanning for the comment literal")));
}

#[test]
fn invalid_character_is_a_syntax_error() {
    assert_eq!(lex("s:0 @"), Err(syntax_error(4, 4, "Invalid character")));
    assert_eq!(lex("]"), Err(syntax_error(0, 0, "Invalid character")));
    assert_eq!(lex("\t"), Err(syntax_error(0, 0, "Invalid character")));
    assert_eq!(lex("é"), Err(syntax_error(0, 0, "Invalid character")));
}

#[test]
fn punctuation_and_line_feed_are_tokens_of_one_character() {
    assert_eq!(
        lex("~:.\n$;?=!#"),
        Ok(vec![
            TokenInfo::new(0, 1, Token::Til),
            TokenInfo::new(1, 2, Token::Col),
            TokenInfo::new(2, 3, Token::Dot),
            TokenInfo::new(3, 4, Token::Eol),
            TokenInfo::new(4, 5, Token::Dol),
            TokenInfo::new(5, 6, Token::Smi),
            TokenInfo::new(6, 7, Token::Que),
            TokenInfo::new(7, 8, Token::Eql),
            TokenInfo::new(8, 9, Token::Not),
            TokenInfo::new(9, 10, Token::Hsh),
        ])
    );
}

#[test]
fn empty_lines_are_kept_as_tokens() {
    assert_eq!(
        lex("\n \n"),
        Ok(vec![TokenInfo::new(0, 1, Token::Eol), TokenInfo::new(2, 3, Token::Eol)])
    );
    assert_eq!(lex(""), Ok(vec![]));
    assert_eq!(lex("   "), Ok(vec![]));
}

#[test]
fn identifier_is_a_maximal_run() {
    assert_eq!(
        lex("_ab1_Z9 x"),
        Ok(vec![
            TokenInfo::new(0, 7, Token::Idn("_ab1_Z9".to_string())),
            TokenInfo::new(8, 9, Token::Idn("x".to_string())),
        ])
    );
}

#[test]
fn integer_literals() {
    assert_eq!(
        lex("0 -12 007 5-3"),
        Ok(vec![
            TokenInfo::new(0, 1, Token::Int(0)),
            TokenInfo::new(2, 5, Token::Int(-12)),
            TokenInfo::new(6, 9, Token::Int(7)),
            TokenInfo::new(10, 11, Token::Int(5)),
            TokenInfo::new(11, 13, Token::Int(-3)),
        ])
    );
    assert_eq!(
        lex(&format!("{} {}", isize::MAX, isize::MIN)).map(|t| {
            t.into_iter().map(|t| t.token).collect::<Vec<_>>()
        }),
        Ok(vec![Token::Int(isize::MAX), Token::Int(isize::MIN)])
    );
}

#[test]
fn letter_after_digits_is_an_invalid_number_literal() {
    assert_eq!(lex(" 12ab"), Err(syntax_error(1, 3, "Invalid number literal")));
    assert_eq!(lex("-x"), Err(syntax_error(0, 1, "Invalid number literal")));
}

#[test]
fn numeral_out_of_range_is_an_invalid_isize() {
    assert_eq!(
        lex("99999999999999999999999999"),
        Err(syntax_error(0, 26, "Invalid isize"))
    );
    assert_eq!(lex("s:-"), Err(syntax_error(2, 3, "Invalid isize")));
    assert_eq!(lex("- 1"), Err(syntax_error(0, 1, "Invalid isize")));
    assert_eq!(lex("1_"), Ok(vec![
        TokenInfo::new(0, 1, Token::Int(1)),
        TokenInfo::new(1, 2, Token::Idn("_".to_string())),
    ]));
}

#[test]
fn spans_are_byte_offsets() {
    assert_eq!(
        lex("\"é\" x"),
        Ok(vec![
            TokenInfo::new(0, 4, Token::Str("é".to_string())),
            TokenInfo::new(5, 6, Token::Idn("x".to_string())),
        ])
    );
}

#[test]
fn spans_follow_the_positions_that_the_characters_carry() {
    let chars = vec![Char::new('a', 10), Char::new('b', 20), Char::new(':', 30)];
    assert_eq!(
        tokenize(chars),
        Ok(vec![
            TokenInfo::new(10, 21, Token::Idn("ab".to_string())),
            TokenInfo::new(30, 31, Token::Col),
        ])
    );
    let chars = vec![Char::new('~', usize::MAX)];
    assert_eq!(tokenize(chars), Ok(vec![TokenInfo::new(usize::MAX, usize::MAX, Token::Til)]));
}

#[test]
fn tokens_cover_the_source_up_to_blanks_and_comments() {
    let source = "s:0 \"a b\" [note] ;l\n  p:g:-1 [x]";
    let tokens = lex(source).unwrap();
    let mut rebuilt = String::new();
    let mut at = 0;
    for t in &tokens {
        assert!(at <= t.start && t.start < t.end && t.end <= source.len());
        rebuilt.push_str(&source[t.start..t.end]);
        at = t.end;
    }
    assert_eq!(rebuilt, "s:0\"a b\";l\np:g:-1");
}

#[test]
fn token_from_chars_spans_first_to_last() {
    let chars = vec![Char::new('a', 3), Char::new('b', 4), Char::new('c', 5)];
    assert_eq!(
        TokenInfo::from_chars(&chars, Token::Idn("abc".to_string())),
        TokenInfo { token: Token::Idn("abc".to_string()), start: 3, end: 5 }
    );
}

#[test]
fn tokens_show_as_they_are_written() {
    let cases = [
        (Token::Str("a\"b\n".to_string()), "\"a\\\"b\\n\""),
        (Token::Int(-42), "-42"),
        (Token::Idn("name".to_string()), "name"),
        (Token::Til, "~"),
        (Token::Col, ":"),
        (Token::Smi, ";"),
        (Token::Dot, "."),
        (Token::Eol, "EOL"),
        (Token::Dol, "$"),
        (Token::Que, "?"),
        (Token::Eql, "="),
        (Token::Not, "!"),
        (Token::Hsh, "#"),
    ];
    for (token, text) in cases {
        assert_eq!(token.to_string(), text);
        assert_eq!(token.clone(), token);
    }
}

#[test]
fn is_iden_follows_the_identifier_grammar() {
    for good in ["a", "_", "L", "a1", "_9_", "loop_2"] {
        assert!(TokenCheck::is_iden(&good.to_string()), "{}", good);
    }
    for bad in ["", "1a", "a b", "a-b", "é", "a.", " a"] {
        assert!(!TokenCheck::is_iden(&bad.to_string()), "{:?}", bad);
    }
}

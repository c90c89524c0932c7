use micron::errors::Code;
use micron::parser::{
    parse, parse_dot_op, parse_func_call, Expr, Fun, Instr, InstrInfo, LabelTable, ParseError,
    ParseErrorInfo, Value,
};
use micron::scanner::Char;
use micron::tokenizer::{tokenize, Token, TokenInfo};

fn lex(source: &str) -> Vec<TokenInfo> {
    tokenize(Char::from_source(&source.to_string())).expect("tokenize")
}

fn program(source: &str) -> Result<(LabelTable, Vec<InstrInfo>), ParseErrorInfo> {
    parse(lex(source))
}

fn failure(source: &str) -> ParseErrorInfo {
    match program(source) {
        Err(e) => e,
        Ok((_, instrs)) => panic!("expected an error, got {:?}", instrs),
    }
}

fn num(n: isize) -> Expr {
    Expr::Value(Value::Int(n))
}

fn lit(s: &str) -> Expr {
    Expr::Value(Value::Str(s.to_string()))
}

fn call(f: Fun) -> Expr {
    Expr::FunCall(Box::new(f))
}

#[test]
fn label_defined_twice_names_the_first_definition() {
    let e = failure("; L\n; L");
    let first = vec![
        TokenInfo::new(0, 1, Token::Smi),
        TokenInfo::new(2, 3, Token::Idn("L".to_string())),
    ];
    let second = vec![
        TokenInfo::new(4, 5, Token::Smi),
        TokenInfo::new(6, 7, Token::Idn("L".to_string())),
    ];
    assert_eq!(e.error, ParseError::LabelAlreadySet { label: "L".to_string(), line: first });
    assert_eq!(e.line, second);
    assert_eq!(e.note, None);
    assert_eq!(e.error.error_code(), Code::ErrCode(301));
}

#[test]
fn call_without_arguments_at_end_of_line() {
    let e = failure("s:");
    assert_eq!(
        e.error,
        ParseError::NotEnoughArgument {
            token_info: TokenInfo::new(0, 1, Token::Idn("s".to_string())),
            got: 0,
            expected: 2,
        }
    );
    assert_eq!(e.error.error_code(), Code::ErrCode(304));
    assert_eq!(e.line, lex("s:"));

    let e = failure("s:\np:1");
    assert!(matches!(e.error, ParseError::NotEnoughArgument { got: 0, expected: 2, .. }));
}

#[test]
fn call_with_too_few_arguments() {
    let e = failure("s:0");
    assert!(matches!(e.error, ParseError::NotEnoughArgument { got: 1, expected: 2, .. }));
    let e = failure("p");
    assert!(matches!(e.error, ParseError::NotEnoughArgument { got: 0, expected: 1, .. }));
    let e = failure("a:1 g:");
    assert_eq!(
        e.error,
        ParseError::NotEnoughArgument {
            token_info: TokenInfo::new(4, 5, Token::Idn("g".to_string())),
            got: 0,
            expected: 1,
        }
    );
    assert_eq!(e.line, lex("    g:"));
}

#[test]
fn dot_at_end_of_line_is_a_missing_argument() {
    let e = failure("g:.");
    assert_eq!(
        e.error,
        ParseError::NotEnoughArgument {
            token_info: TokenInfo::new(0, 1, Token::Idn("g".to_string())),
            got: 0,
            expected: 1,
        }
    );
}

#[test]
fn unknown_function_name() {
    let e = failure("q:1");
    assert_eq!(
        e.error,
        ParseError::UnknownFunctionName(TokenInfo::new(0, 1, Token::Idn("q".to_string())))
    );
    assert_eq!(e.error.error_code(), Code::ErrCode(305));
    assert_eq!(e.line, lex("q:1"));
    assert_eq!(e.note, None);

    for name in ["e", "ss", "S", "_", "print"] {
        assert!(matches!(
            failure(&format!("{}:1 2", name)).error,
            ParseError::UnknownFunctionName(_)
        ));
    }
    let e = failure("p:zz:1");
    assert_eq!(
        e.error,
        ParseError::UnknownFunctionName(TokenInfo::new(2, 4, Token::Idn("zz".to_string())))
    );
    assert_eq!(e.line, lex("  zz:1"));
}

#[test]
fn label_written_as_a_string_gets_a_hint() {
    let e = failure("; \"L\"");
    assert_eq!(
        e.error,
        ParseError::UnexpectedToken(TokenInfo::new(2, 5, Token::Str("L".to_string())))
    );
    assert_eq!(e.note, Some("Maybe you meant `;L`".to_string()));
    assert_eq!(e.error.error_code(), Code::ErrCode(302));
    assert_eq!(e.line, lex("; \"L\""));

    assert_eq!(failure("; \"not a name\"").note, None);
    assert_eq!(failure("; \"\"").note, None);
    assert_eq!(failure("; \"L\" x").note, Some("Maybe you meant `;L`".to_string()));
}

#[test]
fn label_line_of_another_shape_is_refused() {
    let e = failure(";a b");
    assert_eq!(
        e.error,
        ParseError::UnexpectedToken(TokenInfo::new(1, 2, Token::Idn("a".to_string())))
    );
    assert_eq!(e.note, None);
    let e = failure(";1");
    assert_eq!(e.error, ParseError::UnexpectedToken(TokenInfo::new(1, 2, Token::Int(1))));
    let e = failure("p:1\n;");
    assert_eq!(e.error, ParseError::UnexpectedToken(TokenInfo::new(4, 5, Token::Smi)));
    assert_eq!(e.line, vec![TokenInfo::new(4, 5, Token::Smi)]);
}

#[test]
fn line_with_another_start_is_refused() {
    for (source, first) in [
        ("1", Token::Int(1)),
        ("\"s\":1", Token::Str("s".to_string())),
        (":", Token::Col),
        (".1", Token::Dot),
        ("~", Token::Til),
    ] {
        let e = failure(source);
        match e.error {
            ParseError::UnexpectedToken(t) => assert_eq!(t.token, first),
            other => panic!("{:?}", other),
        }
        assert_eq!(e.line, lex(source));
    }
}

#[test]
fn head_must_be_followed_by_a_colon() {
    let e = failure("p 1");
    assert_eq!(e.error, ParseError::UnexpectedToken(TokenInfo::new(2, 3, Token::Int(1))));
    let e = failure("s:0 g 1");
    assert_eq!(e.error, ParseError::UnexpectedToken(TokenInfo::new(6, 7, Token::Int(1))));
    assert_eq!(e.line, lex("    g 1"));
}

#[test]
fn argument_of_another_kind_is_refused_for_itself() {
    let e = failure("s:0 :");
    assert_eq!(e.error, ParseError::UnexpectedToken(TokenInfo::new(4, 5, Token::Col)));
    assert_eq!(e.line, lex("s:0 :"));
    let e = failure("p:;");
    assert_eq!(e.error, ParseError::UnexpectedToken(TokenInfo::new(2, 3, Token::Smi)));
    let e = failure("p:..");
    assert_eq!(e.error, ParseError::UnexpectedToken(TokenInfo::new(3, 4, Token::Dot)));
    assert_eq!(e.line, lex("  .."));
}

#[test]
fn every_head_makes_its_call() {
    let cases: Vec<(&str, Fun)> = vec![
        ("s:1 2", Fun::SetSlot(num(1), num(2))),
        ("g:1", Fun::Get(num(1))),
        ("w:1", Fun::Write(num(1))),
        ("p:1", Fun::Print(num(1))),
        ("a:1 2", Fun::Add(num(1), num(2))),
        ("j:\"l\"", Fun::Jump(lit("l"))),
        ("c:1", Fun::Convert(num(1))),
        ("x:\"s\" 2", Fun::Extract(lit("s"), num(2))),
        ("i", Fun::Input),
        ("k", Fun::KeyChar),
        ("n:\"1\"", Fun::Number(lit("1"))),
        ("t:1", Fun::Text(num(1))),
        ("f:\"l\"", Fun::FunJump(lit("l"))),
        ("r:1", Fun::Return(num(1))),
        ("?:1 2", Fun::If(num(1), num(2))),
        ("=:1 2", Fun::Equal(num(1), num(2))),
        ("#:\"l\" 2", Fun::CatchError(lit("l"), num(2))),
        ("$", Fun::Exit),
        ("!:1", Fun::ThrowError(num(1))),
    ];
    for (source, fun) in cases {
        let (labels, instrs) = program(source).expect(source);
        assert_eq!(labels.len(), 0);
        assert_eq!(
            instrs,
            vec![InstrInfo { instr: Instr::FunCall(Box::new(fun)), start: 0, end: source.len() }],
            "{}",
            source
        );
    }
}

#[test]
fn nested_calls_take_the_tokens_they_need() {
    let (_, instrs) = program("s:~ a:.1 ?:=:g:0 10 $").unwrap();
    let expected = Fun::SetSlot(
        call(Fun::EmptySlot),
        call(Fun::Add(
            call(Fun::Get(num(1))),
            call(Fun::If(
                call(Fun::Equal(call(Fun::Get(num(0))), num(10))),
                call(Fun::Exit),
            )),
        )),
    );
    assert_eq!(instrs.len(), 1);
    assert_eq!(instrs[0].instr, Instr::FunCall(Box::new(expected)));
    assert_eq!((instrs[0].start, instrs[0].end), (0, 21));
}

#[test]
fn what_follows_a_call_on_its_line_is_not_read() {
    let (_, instrs) = program("p:1 p:2 ; : \"x\"").unwrap();
    assert_eq!(
        instrs,
        vec![InstrInfo { instr: Instr::FunCall(Box::new(Fun::Print(num(1)))), start: 0, end: 15 }]
    );
}

#[test]
fn labels_name_their_lines_and_empty_lines_do_not_count() {
    let (labels, instrs) = program("\n\n;first\n\np:1\n  \n;second\n[c]\n;third").unwrap();
    assert_eq!(labels.len(), 3);
    assert_eq!(labels.get("first"), Some(0));
    assert_eq!(labels.get("second"), Some(2));
    assert_eq!(labels.get("third"), Some(3));
    assert_eq!(labels.get("fourth"), None);
    assert_eq!(instrs.len(), 4);
    assert_eq!(instrs[0].instr, Instr::LabelPlaceHolder("first".to_string()));
    assert_eq!((instrs[0].start, instrs[0].end), (2, 8));
    assert_eq!(instrs[2].instr, Instr::LabelPlaceHolder("second".to_string()));
    assert_eq!(instrs[3].instr, Instr::LabelPlaceHolder("third".to_string()));
    for name in ["first", "second", "third"] {
        let line = labels.get(name).unwrap();
        assert_eq!(instrs[line].instr, Instr::LabelPlaceHolder(name.to_string()));
    }
}

#[test]
fn label_table_replaces_on_insert() {
    let mut labels = LabelTable::new();
    assert_eq!(labels.len(), 0);
    labels.insert("a".to_string(), 1);
    labels.insert("b".to_string(), 2);
    labels.insert("a".to_string(), 3);
    assert_eq!(labels.len(), 2);
    assert_eq!(labels.get("a"), Some(3));
    assert_eq!(labels.get("b"), Some(2));
}

#[test]
fn parse_func_call_counts_the_tokens_it_takes() {
    assert_eq!(parse_func_call(lex("p:1")), Ok((3, call(Fun::Print(num(1))))));
    assert_eq!(parse_func_call(lex("i 1 2")), Ok((1, call(Fun::Input))));
    assert_eq!(parse_func_call(lex("~")), Ok((1, call(Fun::EmptySlot))));
    assert_eq!(
        parse_func_call(lex("a:.1 g:2 rest")),
        Ok((7, call(Fun::Add(call(Fun::Get(num(1))), call(Fun::Get(num(2)))))))
    );
}

#[test]
fn parse_func_call_refuses_what_starts_no_call() {
    let e = parse_func_call(lex("1:2")).unwrap_err();
    assert_eq!(e.error, ParseError::UnexpectedToken(TokenInfo::new(0, 1, Token::Int(1))));
    assert_eq!(e.line, lex("1:2"));
    let e = parse_func_call(vec![]).unwrap_err();
    assert_eq!(e, ParseErrorInfo::new(ParseError::InvalidSyntax, vec![], None));
    assert_eq!(e.error.error_code(), Code::ErrCode(303));
}

#[test]
fn parse_dot_op_reads_a_slot() {
    assert_eq!(parse_dot_op(lex(".5 x")), Ok((2, call(Fun::Get(num(5))))));
    let e = parse_dot_op(lex(".x")).unwrap_err();
    assert_eq!(
        e.error,
        ParseError::UnexpectedToken(TokenInfo::new(1, 2, Token::Idn("x".to_string())))
    );
    assert_eq!(e.line, lex(".x"));
    let e = parse_dot_op(lex("1 2")).unwrap_err();
    assert_eq!(e.error, ParseError::UnexpectedToken(TokenInfo::new(2, 3, Token::Int(2))));
    let e = parse_dot_op(lex(".")).unwrap_err();
    assert_eq!(e.error, ParseError::InvalidSyntax);
}

#[test]
fn parse_errors_have_names_and_codes() {
    let t = TokenInfo::new(0, 1, Token::Col);
    let cases = [
        (ParseError::LabelAlreadySet { label: "l".to_string(), line: vec![] }, "LabelAlreadySet", 301),
        (ParseError::UnexpectedToken(t.clone()), "UnexpectedToken", 302),
        (ParseError::InvalidSyntax, "InvalidSyntax", 303),
        (
            ParseError::NotEnoughArgument { token_info: t.clone(), got: 0, expected: 1 },
            "NotEnoughArgument",
            304,
        ),
        (ParseError::UnknownFunctionName(t.clone()), "UnknownFunctionName", 305),
    ];
    for (error, name, code) in cases {
        assert_eq!(error.to_string(), name);
        assert_eq!(error.error_code(), Code::ErrCode(code));
        assert_eq!(error.error_code().to_string(), format!("E{}", code));
    }
}

#[test]
fn calls_show_their_mnemonic() {
    let cases: Vec<(Fun, &str)> = vec![
        (Fun::SetSlot(num(1), num(2)), "s:"),
        (Fun::Get(num(1)), "g:"),
        (Fun::Write(num(1)), "w:"),
        (Fun::Print(num(1)), "p:"),
        (Fun::Add(num(1), num(2)), "a:"),
        (Fun::Jump(num(1)), "j:"),
        (Fun::Equal(num(1), num(2)), "e:"),
        (Fun::Convert(num(1)), "c:"),
        (Fun::Extract(num(1), num(2)), "x:"),
        (Fun::If(num(1), num(2)), "?:"),
        (Fun::Input, "i"),
        (Fun::KeyChar, "k"),
        (Fun::Text(num(1)), "t:"),
        (Fun::Number(num(1)), "n:"),
        (Fun::CatchError(num(1), num(2)), "#:"),
        (Fun::ThrowError(num(1)), "!:"),
        (Fun::Return(num(1)), "r:"),
        (Fun::FunJump(num(1)), "f:"),
        (Fun::EmptySlot, "~"),
        (Fun::Exit, "$"),
    ];
    for (fun, text) in cases {
        assert_eq!(fun.to_string(), text);
        assert_eq!(fun.clone(), fun);
    }
}

#[test]
fn values_show_with_their_type() {
    assert_eq!(Value::Str("a\"b\n".to_string()).to_string(), "\"a\\\"b\\n\" (an Str)");
    assert_eq!(Value::Str(String::new()).to_string(), "\"\" (an Str)");
    assert_eq!(Value::Int(-7).to_string(), "-7 (an Int)");
    assert_eq!(Value::Nil.to_string(), "None");
}

use micron::errors::Code;
use micron::interpreter::{
    interpret, interpret_fun_call, interpret_instrs, Action, Error, InterpreterError,
};
use micron::parser::{parse, Expr, Fun, Value};
use micron::scanner::Char;
use micron::session::Console;
use micron::tokenizer::tokenize;

/// What a run of a program left behind.
struct Run {
    output: String,
    result: Option<Result<(), InterpreterError>>,
    exited: bool,
    slots: Vec<Value>,
}

/// Runs `source` to its end, feeding it `inputs` line by line, and reads `watch` slots.
fn run(source: &str, inputs: &[Result<&str, ()>], watch: &[isize]) -> Run {
    let tokens = tokenize(Char::from_source(&source.to_string())).expect("tokenize");
    let (labels, instrs) = parse(tokens).expect("parse");
    let mut machine = interpret(&labels, &instrs);
    let lines = inputs.iter().map(|line| line.map(|text| text.to_string())).collect();
    let mut console = Console::new(lines);
    let mut result = None;
    let mut exited = false;
    match micron::session::run(&mut machine, &mut console, 1_000_000) {
        Action::Exit => exited = true,
        Action::Finished(r) => result = Some(r),
        other => panic!("the program does not end: {:?}", other),
    }
    let output = console.written().concat();
    let slots = watch.iter().map(|k| machine.slot(*k)).collect();
    Run { output, result, exited, slots }
}

fn failure(run: &Run) -> &InterpreterError {
    match &run.result {
        Some(Err(e)) => e,
        other => panic!("expected an error, got {:?}", other),
    }
}

#[test]
fn set_then_print_get() {
    let r = run("s:0 \"hi\"\np:g:0", &[], &[0]);
    assert_eq!(r.output, "hi\n");
    assert_eq!(r.result, Some(Ok(())));
    assert_eq!(r.slots, vec![Value::Str("hi".to_string())]);
}

#[test]
fn add_two_slots_with_dot_shorthand() {
    let r = run("s:1 5\ns:2 7\np:a:.1 .2", &[], &[]);
    assert_eq!(r.output, "12\n");
    assert_eq!(r.result, Some(Ok(())));
}

#[test]
fn counting_loop_ends_at_ten() {
    let source = "s:0 0\n;loop\ns:0 a:g:0 1\n?:=:g:0 10 j:\"end\"\nj:\"loop\"\n;end\np:\"done\"";
    let r = run(source, &[], &[0]);
    assert_eq!(r.output, "done\n");
    assert_eq!(r.result, Some(Ok(())));
    assert_eq!(r.slots, vec![Value::Int(10)]);
}

#[test]
fn adding_to_an_unset_slot_is_an_error() {
    let r = run(";loop\ns:0 a:g:0 1", &[], &[0]);
    let e = failure(&r);
    assert_eq!(e.error_info.error.error_code(), Code::ErrCode(400));
    assert_eq!(
        e.error_info.error,
        Error::Error("You are trying to add None and 1 (an Int) which is invalid".to_string())
    );
    assert_eq!(r.slots, vec![Value::Nil]);
}

#[test]
fn add_text_and_integer_fails_with_the_span_of_the_call() {
    let r = run("a:\"x\" 1", &[], &[]);
    let e = failure(&r);
    assert_eq!(e.error_info.error.error_code().to_string(), "E400");
    assert_eq!(
        e.error_info.error,
        Error::Error(
            "You are trying to add \"x\" (an Str) and 1 (an Int) which is invalid".to_string()
        )
    );
    assert_eq!(e.error_info.note, None);
    assert_eq!((e.instr_info.start, e.instr_info.end), (0, 7));
    assert_eq!(r.output, "");
}

#[test]
fn catch_stores_the_code_of_a_value_error() {
    let r = run("#:\"h\" n:\"abc\"\n;h\np:g:-1", &[], &[-1]);
    assert_eq!(r.output, "403\n");
    assert_eq!(r.result, Some(Ok(())));
    assert_eq!(r.slots, vec![Value::Int(403)]);
}

#[test]
fn catch_stores_the_code_of_a_thrown_error() {
    let r = run("#:\"h\" !:\"boom\"\np:\"skipped\"\n;h\np:g:-1", &[], &[]);
    assert_eq!(r.output, "400\n");
}

#[test]
fn catch_stores_the_code_of_a_type_error() {
    let r = run("#:\"h\" g:\"x\"\n;h\np:g:-1", &[], &[]);
    assert_eq!(r.output, "401\n");
}

#[test]
fn catch_stores_the_code_of_a_label_error() {
    let r = run("#:\"h\" j:\"nowhere\"\n;h\np:g:-1", &[], &[]);
    assert_eq!(r.output, "402\n");
}

#[test]
fn catch_sees_an_error_from_inside_a_called_run() {
    let source = "#:\"h\" f:\"fn\"\n$\n;fn\nn:\"x\"\n;h\np:g:-1";
    let r = run(source, &[], &[]);
    assert_eq!(r.output, "403\n");
    assert_eq!(r.result, Some(Ok(())));
}

#[test]
fn catch_hands_on_the_value_of_what_it_guards() {
    let r = run("p:#:\"h\" 5\n;h", &[], &[-1]);
    assert_eq!(r.output, "5\n");
    assert_eq!(r.slots, vec![Value::Nil]);
}

#[test]
fn catch_wants_a_text_and_a_known_label() {
    let r = run("#:1 2", &[], &[]);
    assert_eq!(
        failure(&r).error_info.error,
        Error::TypeError { expected: Value::Str(String::new()), got: Value::Int(1) }
    );
    let r = run("#:\"nowhere\" 2", &[], &[]);
    assert_eq!(failure(&r).error_info.error, Error::LabelError("nowhere".to_string()));
}

#[test]
fn catch_lets_a_return_pass() {
    let r = run("p:f:\"fn\"\n$\n;fn\n#:\"h\" r:3\n;h\np:\"handler\"", &[], &[]);
    assert_eq!(r.output, "3\n");
    assert!(r.exited);
}

#[test]
fn throw_stops_the_program() {
    let r = run("!:42\np:\"unreached\"", &[], &[]);
    let e = failure(&r);
    assert_eq!(e.error_info.error.error_code().to_string(), "E400");
    assert_eq!(e.error_info.error, Error::Error("42".to_string()));
    assert_eq!(
        e.error_info.note,
        Some("This is an error raise by function `!:`".to_string())
    );
    assert_eq!(e.error_info.fun, Fun::ThrowError(Expr::Value(Value::Int(42))));
    assert_eq!((e.instr_info.start, e.instr_info.end), (0, 4));
    assert_eq!(r.output, "");
}

#[test]
fn throw_shows_nothing_for_the_absent_value() {
    let r = run("!:k", &[], &[]);
    assert_eq!(failure(&r).error_info.error, Error::Error(String::new()));
}

#[test]
fn get_on_an_unset_slot_is_none() {
    let r = run("p:g:5\np:g:-7", &[], &[5]);
    assert_eq!(r.output, "None\nNone\n");
    assert_eq!(r.result, Some(Ok(())));
    assert_eq!(r.slots, vec![Value::Nil]);
}

#[test]
fn get_wants_an_integer() {
    let r = run("g:\"x\"", &[], &[]);
    let e = failure(&r);
    assert_eq!(e.error_info.error.error_code(), Code::ErrCode(401));
    assert_eq!(
        e.error_info.error,
        Error::TypeError { expected: Value::Int(0), got: Value::Str("x".to_string()) }
    );
}

#[test]
fn set_wants_an_integer_slot_before_it_evaluates_the_value() {
    let r = run("s:\"x\" p:\"side effect\"", &[], &[]);
    assert_eq!(r.output, "");
    assert_eq!(
        failure(&r).error_info.error,
        Error::TypeError { expected: Value::Int(0), got: Value::Str("x".to_string()) }
    );
}

#[test]
fn set_overwrites() {
    let r = run("s:3 1\ns:3 \"two\"\ns:4 9", &[], &[3, 4]);
    assert_eq!(r.slots, vec![Value::Str("two".to_string()), Value::Int(9)]);
}

#[test]
fn jump_continues_after_the_label() {
    let r = run("j:\"l\"\np:\"skipped\"\n;l\np:\"after\"", &[], &[]);
    assert_eq!(r.output, "after\n");
}

#[test]
fn jump_to_an_unknown_label_is_a_label_error() {
    let r = run("j:\"nowhere\"", &[], &[]);
    let e = failure(&r);
    assert_eq!(e.error_info.error.error_code(), Code::ErrCode(402));
    assert_eq!(e.error_info.error, Error::LabelError("nowhere".to_string()));
}

#[test]
fn jump_wants_a_text() {
    let r = run("j:1", &[], &[]);
    assert_eq!(
        failure(&r).error_info.error,
        Error::TypeError { expected: Value::Str(String::new()), got: Value::Int(1) }
    );
}

#[test]
fn fun_jump_returns_a_value_to_its_caller() {
    let r = run("p:f:\"fn\"\np:\"back\"\n$\n;fn\nr:7\np:\"not run\"", &[], &[]);
    assert_eq!(r.output, "7\nback\n");
    assert!(r.exited);
}

#[test]
fn fun_jump_that_runs_off_the_end_has_no_value() {
    let r = run("p:f:\"fn\"\n$\n;fn\nw:\"in\"", &[], &[]);
    assert_eq!(r.output, "inNone\n");
    assert!(r.exited);
}

#[test]
fn jump_inside_a_called_run_stays_inside_it() {
    let source = "p:f:\"fn\"\n$\n;fn\nj:\"skip\"\nr:1\n;skip\nr:2";
    let r = run(source, &[], &[]);
    assert_eq!(r.output, "2\n");
}

#[test]
fn an_error_inside_a_called_run_carries_the_inner_instruction() {
    let r = run("f:\"fn\"\n$\n;fn\nn:\"x\"", &[], &[]);
    let e = failure(&r);
    assert_eq!(e.error_info.error.error_code(), Code::ErrCode(403));
    assert_eq!((e.instr_info.start, e.instr_info.end), (13, 18));
}

#[test]
fn return_at_top_level_ends_the_program() {
    let r = run("p:\"a\"\nr:1\np:\"b\"", &[], &[]);
    assert_eq!(r.output, "a\n");
    assert_eq!(r.result, Some(Ok(())));
}

#[test]
fn add_joins_texts() {
    let r = run("p:a:\"ab\" \"cd\"", &[], &[]);
    assert_eq!(r.output, "abcd\n");
}

#[test]
fn add_wraps_round() {
    let source = format!("s:0 a:{} 1\ns:1 a:{} -1", isize::MAX, isize::MIN);
    let r = run(&source, &[], &[0, 1]);
    assert_eq!(r.slots, vec![Value::Int(isize::MIN), Value::Int(isize::MAX)]);
}

#[test]
fn equal_compares_like_with_like() {
    let r = run("w:=:1 1\nw:=:1 2\nw:=:\"a\" \"a\"\nw:=:\"a\" \"b\"", &[], &[]);
    assert_eq!(r.output, "1010");
}

#[test]
fn equal_across_types_is_an_error() {
    let r = run("=:1 \"a\"", &[], &[]);
    let e = failure(&r);
    assert_eq!(e.error_info.error.error_code(), Code::ErrCode(400));
    assert_eq!(
        e.error_info.error,
        Error::Error(
            "You are trying to compare 1 (an Int) and \"a\" (an Str) which is invalid".to_string()
        )
    );
}

#[test]
fn if_is_lazy_in_its_second_argument() {
    let r = run("?:0 p:\"no\"\n?:\"\" p:\"no\"\n?:k p:\"no\"\n?:1 p:\"yes\"\n?:\"x\" p:\"too\"", &[], &[]);
    assert_eq!(r.output, "yes\ntoo\n");
}

#[test]
fn if_has_the_value_of_its_second_argument() {
    let r = run("p:?:1 5\np:?:0 5", &[], &[]);
    assert_eq!(r.output, "5\nNone\n");
}

#[test]
fn extract_takes_one_character() {
    let r = run("p:x:\"héllo\" 1\np:x:\"abc\" 3\np:x:\"abc\" -1\np:x:\"abc\" 0", &[], &[]);
    assert_eq!(r.output, "é\n\n\na\n");
}

#[test]
fn extract_wants_a_text_and_an_integer() {
    let r = run("x:1 \"a\"", &[], &[]);
    assert_eq!(
        failure(&r).error_info.error,
        Error::Error(
            "You are trying to extract from 1 (an Int) using index value \"a\" (an Str) which is invalid"
                .to_string()
        )
    );
}

#[test]
fn text_and_number_are_inverse_on_numerals() {
    let r = run("p:t:n:\"123\"\np:t:n:\"-45\"\np:t:n:\"0\"", &[], &[]);
    assert_eq!(r.output, "123\n-45\n0\n");
}

#[test]
fn number_reads_a_sign_and_leading_zeros() {
    let r = run("p:n:\"+7\"\np:n:\"007\"\np:n:\"-0\"", &[], &[]);
    assert_eq!(r.output, "7\n7\n0\n");
}

#[test]
fn number_refuses_what_is_no_numeral() {
    for bad in ["", "-", "+", "1 ", " 1", "1a", "99999999999999999999999", "１"] {
        let r = run(&format!("n:\"{}\"", bad), &[], &[]);
        let e = failure(&r);
        assert_eq!(e.error_info.error.error_code(), Code::ErrCode(403));
        assert_eq!(e.error_info.error, Error::ValueError(Value::Str(bad.to_string())));
        assert_eq!(
            e.error_info.note,
            Some(format!("Cannot convert {:?} (an Str) to an Int", bad))
        );
    }
}

#[test]
fn number_wants_a_text_and_text_an_integer() {
    let r = run("n:1", &[], &[]);
    assert_eq!(
        failure(&r).error_info.error,
        Error::TypeError { expected: Value::Int(0), got: Value::Int(1) }
    );
    let r = run("t:\"1\"", &[], &[]);
    assert_eq!(
        failure(&r).error_info.error,
        Error::TypeError { expected: Value::Int(0), got: Value::Str("1".to_string()) }
    );
}

#[test]
fn convert_goes_both_ways() {
    let r = run("p:c:\"A\"\np:c:66\np:c:\"é\"\np:c:233", &[], &[]);
    assert_eq!(r.output, "65\nB\n233\né\n");
}

#[test]
fn convert_refuses_other_lengths_and_code_points() {
    let r = run("c:\"ab\"", &[], &[]);
    let e = failure(&r);
    assert_eq!(e.error_info.error, Error::ValueError(Value::Str("ab".to_string())));
    assert_eq!(e.error_info.note, Some("The Str should have exactly 1 char got 2".to_string()));

    let r = run("c:\"\"", &[], &[]);
    assert_eq!(
        failure(&r).error_info.note,
        Some("The Str should have exactly 1 char got 0".to_string())
    );

    for bad in [-1isize, 0xD800, 0xDFFF, 0x110000] {
        let r = run(&format!("c:{}", bad), &[], &[]);
        let e = failure(&r);
        assert_eq!(e.error_info.error, Error::ValueError(Value::Int(bad)));
        assert_eq!(e.error_info.note, Some(format!("Cannot convert Int {} to a char", bad)));
    }

    let r = run("c:k", &[], &[]);
    let e = failure(&r);
    assert_eq!(e.error_info.error, Error::ValueError(Value::Nil));
    assert_eq!(e.error_info.note, Some("Cannot convert None value".to_string()));
}

#[test]
fn print_and_write_show_values_raw() {
    let r = run("w:\"a b\"\nw:-3\nw:k\np:\"x\"\np:4\np:k", &[], &[]);
    assert_eq!(r.output, "a b-3Nonex\n4\nNone\n");
}

#[test]
fn input_is_trimmed() {
    let r = run("p:i\np:i", &[Ok("  hello world \t\r\n"), Ok("")], &[]);
    assert_eq!(r.output, "hello world\n\n");
    assert_eq!(r.result, Some(Ok(())));
}

#[test]
fn input_failure_is_an_error() {
    let r = run("p:i", &[Err(())], &[]);
    let e = failure(&r);
    assert_eq!(e.error_info.error.error_code(), Code::ErrCode(400));
    assert_eq!(e.error_info.error, Error::Error("Failed to receive an input".to_string()));
    assert_eq!(e.error_info.fun, Fun::Input);
    assert_eq!(r.output, "");
}

#[test]
fn key_char_has_no_value() {
    let r = run("s:0 k", &[], &[0]);
    assert_eq!(r.slots, vec![Value::Nil]);
}

#[test]
fn empty_slot_is_the_first_free_one() {
    let r = run("p:~\ns:0 1\ns:1 2\ns:3 4\ns:-5 0\np:~\ns:~ 9\np:~", &[], &[2]);
    assert_eq!(r.output, "0\n2\n4\n");
    assert_eq!(r.slots, vec![Value::Int(9)]);
}

#[test]
fn exit_stops_at_once() {
    let r = run("p:\"a\"\n#:\"h\" p:$\np:\"b\"\n;h\np:\"c\"", &[], &[]);
    assert_eq!(r.output, "a\n");
    assert!(r.exited);
    assert_eq!(r.result, None);
}

#[test]
fn an_empty_program_finishes() {
    let r = run("", &[], &[]);
    assert_eq!(r.result, Some(Ok(())));
    let r = run(";only\n\n  \n", &[], &[]);
    assert_eq!(r.result, Some(Ok(())));
}

#[test]
fn a_finished_machine_stays_finished() {
    let tokens = tokenize(Char::from_source(&"!:1".to_string())).unwrap();
    let (labels, instrs) = parse(tokens).unwrap();
    let mut machine = interpret(&labels, &instrs);
    let mut last = Action::Continue;
    for _ in 0..20 {
        last = interpret_instrs(&mut machine);
    }
    match last {
        Action::Finished(Err(e)) => assert_eq!(e.error_info.error, Error::Error("1".to_string())),
        other => panic!("{:?}", other),
    }
    machine.resume(Ok("ignored".to_string()));
    assert!(matches!(interpret_instrs(&mut machine), Action::Finished(Err(_))));
}

#[test]
fn a_machine_that_waits_keeps_asking() {
    let tokens = tokenize(Char::from_source(&"p:i".to_string())).unwrap();
    let (labels, instrs) = parse(tokens).unwrap();
    let mut machine = interpret(&labels, &instrs);
    let mut steps = 0;
    while interpret_instrs(&mut machine) != Action::Read {
        steps += 1;
        assert!(steps < 10);
    }
    assert_eq!(interpret_instrs(&mut machine), Action::Read);
    machine.resume(Ok("x".to_string()));
    assert_eq!(interpret_instrs(&mut machine), Action::Write("x\n".to_string()));
}

#[test]
fn a_call_can_be_entered_directly() {
    let tokens = tokenize(Char::from_source(&"k".to_string())).unwrap();
    let (labels, instrs) = parse(tokens).unwrap();
    let mut machine = interpret(&labels, &instrs);
    assert_eq!(interpret_instrs(&mut machine), Action::Continue);
    let call = Fun::Print(Expr::Value(Value::Int(5)));
    assert_eq!(interpret_fun_call(&mut machine, &call), Action::Continue);
    assert_eq!(interpret_instrs(&mut machine), Action::Write("5\n".to_string()));
    let exit = Fun::Exit;
    assert_eq!(interpret_fun_call(&mut machine, &exit), Action::Exit);
}

#[test]
fn a_program_can_be_served_by_hand() {
    let tokens = tokenize(Char::from_source(&"w:\"> \"\np:a:i i\n$\np:\"no\"".to_string())).unwrap();
    let (labels, instrs) = parse(tokens).unwrap();
    let mut machine = interpret(&labels, &instrs);
    let mut inputs = vec!["left ", " right\n"].into_iter();
    let mut trace = Vec::new();
    loop {
        match interpret_instrs(&mut machine) {
            Action::Continue => {}
            Action::Write(text) => trace.push(format!("write {:?}", text)),
            Action::Read => {
                let line = inputs.next().unwrap();
                trace.push(format!("read {:?}", line));
                machine.resume(Ok(line.to_string()));
            }
            Action::Exit => {
                trace.push("exit".to_string());
                break;
            }
            Action::Finished(r) => panic!("{:?}", r),
        }
    }
    assert_eq!(
        trace,
        vec!["write \"> \"", "read \"left \"", "read \" right\\n\"", "write \"leftright\\n\"", "exit"]
    );
}

#[test]
fn a_run_stops_when_its_budget_is_used_up() {
    let tokens = tokenize(Char::from_source(&";l\nw:\"x\"\nj:\"l\"".to_string())).unwrap();
    let (labels, instrs) = parse(tokens).unwrap();
    let mut machine = interpret(&labels, &instrs);
    let mut console = Console::new(vec![]);
    assert_eq!(micron::session::run(&mut machine, &mut console, 0), Action::Continue);
    assert_eq!(console.written().len(), 0);
    assert_eq!(micron::session::run(&mut machine, &mut console, 1000), Action::Continue);
    let so_far = console.written().len();
    assert!(so_far > 50);
    assert!(console.written().iter().all(|text| text == "x"));
    assert_eq!(micron::session::run(&mut machine, &mut console, 1000), Action::Continue);
    assert!(console.written().len() > so_far);
}

#[test]
fn a_run_that_is_over_stays_over() {
    let tokens = tokenize(Char::from_source(&"p:i\np:i".to_string())).unwrap();
    let (labels, instrs) = parse(tokens).unwrap();
    let mut machine = interpret(&labels, &instrs);
    let mut console = Console::new(vec![Ok("one".to_string())]);
    let first = micron::session::run(&mut machine, &mut console, 100);
    assert!(matches!(first, Action::Finished(Err(_))));
    assert_eq!(console.written(), &vec!["one\n".to_string()]);
    assert_eq!(micron::session::run(&mut machine, &mut console, 100), first);
    assert_eq!(console.written().len(), 1);
}

#[test]
fn error_kinds_have_names_and_codes() {
    let cases = [
        (
            Error::TypeError { expected: Value::Int(0), got: Value::Nil },
            "TypeError",
            401,
        ),
        (Error::LabelError("l".to_string()), "LabelError", 402),
        (Error::ValueError(Value::Nil), "ValueError", 403),
        (Error::NoSlotError, "NoSlotError", 404),
        (Error::Error("m".to_string()), "Error", 400),
    ];
    for (error, name, code) in cases {
        assert_eq!(error.to_string(), name);
        assert_eq!(error.error_code(), Code::ErrCode(code));
        assert_eq!(error.error_code().as_isize(), code as isize);
        assert_eq!(error.clone(), error);
    }
}

//! What each built-in function does once its arguments are values.

use vstd::prelude::*;
use std::collections::HashMap;
use crate::interpreter::{Error, ErrorInfo, ErrorInfoView, ErrorView, Signal, SignalView};
use crate::parser::{shown, ExprView, Fun, FunView, LabelTable, Value, ValueView};
use crate::text::{
    chars_to_string, decimal, int_to_string, is_canonical, is_scalar, lemma_decimal_of_parse,
    lemma_parse_of_decimal, parse_chars, parse_int, push_decimal, string_chars,
};

verus! {

/// The slot table: the values that a script has stored, by slot.
pub struct SlotTable {
    map: HashMap<isize, Value>,
}

impl View for SlotTable {
    type V = Map<isize, ValueView>;

    closed spec fn view(&self) -> Map<isize, ValueView> {
        self.map@.map_values(|v: Value| v@)
    }
}

/// What a read of slot `k` gives: the value stored there, or the absent value.
pub open spec fn slot_value(slots: Map<isize, ValueView>, k: isize) -> ValueView {
    if slots.contains_key(k) {
        slots[k]
    } else {
        ValueView::Nil
    }
}

/// True where `n` is the smallest slot from zero up that holds nothing.
pub open spec fn is_first_free(slots: Map<isize, ValueView>, n: isize) -> bool {
    &&& 0 <= n < isize::MAX
    &&& !slots.contains_key(n)
    &&& forall|m: isize| 0 <= m < n ==> slots.contains_key(m)
}

/// The smallest slot from zero up that holds nothing, if there is one below `isize::MAX`.
pub open spec fn first_free(slots: Map<isize, ValueView>) -> Option<isize> {
    if exists|n: isize| is_first_free(slots, n) {
        Some(choose|n: isize| is_first_free(slots, n))
    } else {
        None
    }
}

impl SlotTable {
    /// A table in which no slot is set.
    pub fn new() -> (r: Self)
        ensures
            r@ == Map::<isize, ValueView>::empty(),
    {
        let r = SlotTable { map: HashMap::new() };
        assert(r@ =~= Map::<isize, ValueView>::empty());
        r
    }

    /// Reads slot `k`. A slot that was never set reads as the absent value.
    pub fn get(&self, k: isize) -> (r: Value)
        ensures
            r@ == slot_value(self@, k),
    {
        match self.map.get(&k) {
            Some(v) => v.clone(),
            None => Value::Nil,
        }
    }

    /// Stores `v` in slot `k`, in place of what was there.
    pub fn insert(&mut self, k: isize, v: Value)
        ensures
            final(self)@ == old(self)@.insert(k, v@),
    {
        self.map.insert(k, v);
        assert(final(self)@ =~= old(self)@.insert(k, v@));
    }

    /// The first free slot.
    pub fn first_free(&self) -> (r: Option<isize>)
        ensures
            r == first_free(self@),
    {
        let mut n: isize = 0;
        while n < isize::MAX
            invariant
                0 <= n <= isize::MAX,
                forall|m: isize| 0 <= m < n ==> self@.contains_key(m),
            decreases isize::MAX - n,
        {
            if !self.map.contains_key(&n) {
                assert(is_first_free(self@, n));
                return Some(n);
            }
            n += 1;
        }
        None
    }
}

/// True where a condition holds: a non-zero integer or a non-empty text.
pub open spec fn truthy(v: ValueView) -> bool {
    match v {
        ValueView::Str(s) => s.len() > 0,
        ValueView::Int(n) => n != 0,
        ValueView::Nil => false,
    }
}

/// What `p:` and `w:` write for a value: a text as it is, an integer in decimal, the absent
/// value as `None`.
pub open spec fn printed(v: ValueView) -> Seq<char> {
    match v {
        ValueView::Str(s) => s,
        ValueView::Int(n) => decimal(n as int),
        ValueView::Nil => "None"@,
    }
}

/// The message of an error thrown with a value: a text as it is, an integer in decimal, the
/// absent value as the empty text.
pub open spec fn thrown(v: ValueView) -> Seq<char> {
    match v {
        ValueView::Str(s) => s,
        ValueView::Int(n) => decimal(n as int),
        ValueView::Nil => Seq::empty(),
    }
}

/// What a call comes to once its arguments are values.
pub enum Outcome {
    /// The call has this value.
    Yield(Value),
    /// The call hands up a signal.
    Raise(Signal),
    /// The call writes this text and has no value.
    Emit(String),
    /// The call runs the instructions from this index on and has the value they return.
    Run(usize),
}

/// What an [`Outcome`] stands for.
pub enum OutcomeView {
    Yield(ValueView),
    Raise(SignalView),
    Emit(Seq<char>),
    Run(usize),
}

impl View for Outcome {
    type V = OutcomeView;

    open spec fn view(&self) -> OutcomeView {
        match self {
            Outcome::Yield(v) => OutcomeView::Yield(v@),
            Outcome::Raise(signal) => OutcomeView::Raise(signal@),
            Outcome::Emit(text) => OutcomeView::Emit(text@),
            Outcome::Run(index) => OutcomeView::Run(*index),
        }
    }
}

/// The call `fun` fails with `error`.
pub open spec fn fail(fun: FunView, error: ErrorView, note: Option<Seq<char>>) -> OutcomeView {
    OutcomeView::Raise(SignalView::Error(ErrorInfoView { error, fun, note }))
}

/// The call `fun` fails because `got` has not the type of `expected`.
pub open spec fn type_error(fun: FunView, expected: ValueView, got: ValueView) -> OutcomeView {
    fail(fun, ErrorView::TypeError { expected, got }, None)
}

/// The message of a call that cannot combine `a` and `b`: `lead`, the first value, `mid`,
/// the second value, and ` which is invalid`.
pub open spec fn invalid_pair(lead: Seq<char>, mid: Seq<char>, a: ValueView, b: ValueView) -> Seq<
    char,
> {
    lead + shown(a) + mid + shown(b) + " which is invalid"@
}

/// The outcome of a call with one argument, `v`.
///
/// - `g:` reads a slot; the argument must be an integer.
/// - `j:` and `f:` look a label up; the argument must be a text that names one.
/// - `!:` fails with the argument as its message.
/// - `p:` and `w:` write the argument, `p:` with a newline after it.
/// - `t:` turns an integer into its numeral, `n:` a numeral into its integer.
/// - `c:` turns a text of one character into its code point and a code point into the text
///   of its character.
/// - `r:` returns the argument.
///
/// A call of any other kind has the value of its argument.
pub open spec fn unary(
    labels: Map<Seq<char>, usize>,
    slots: Map<isize, ValueView>,
    fun: FunView,
    v: ValueView,
) -> OutcomeView {
    match fun {
        FunView::Get(_) => match v {
            ValueView::Int(k) => OutcomeView::Yield(slot_value(slots, k)),
            _ => type_error(fun, ValueView::Int(0), v),
        },
        FunView::Jump(_) => match v {
            ValueView::Str(name) => if labels.contains_key(name) {
                OutcomeView::Raise(SignalView::Jump(labels[name]))
            } else {
                fail(fun, ErrorView::LabelError(name), None)
            },
            _ => type_error(fun, ValueView::Str(Seq::empty()), v),
        },
        FunView::FunJump(_) => match v {
            ValueView::Str(name) => if labels.contains_key(name) {
                OutcomeView::Run(labels[name])
            } else {
                fail(fun, ErrorView::LabelError(name), None)
            },
            _ => type_error(fun, ValueView::Str(Seq::empty()), v),
        },
        FunView::ThrowError(_) => fail(
            fun,
            ErrorView::Error(thrown(v)),
            Some("This is an error raise by function `!:`"@),
        ),
        FunView::Print(_) => OutcomeView::Emit(printed(v).push('\n')),
        FunView::Write(_) => OutcomeView::Emit(printed(v)),
        FunView::Text(_) => match v {
            ValueView::Int(n) => OutcomeView::Yield(ValueView::Str(decimal(n as int))),
            _ => type_error(fun, ValueView::Int(0), v),
        },
        FunView::Number(_) => match v {
            ValueView::Str(s) => match parse_int(s) {
                Some(n) => OutcomeView::Yield(ValueView::Int(n)),
                None => fail(
                    fun,
                    ErrorView::ValueError(v),
                    Some("Cannot convert "@ + shown(v) + " to an Int"@),
                ),
            },
            _ => type_error(fun, ValueView::Int(0), v),
        },
        FunView::Convert(_) => match v {
            ValueView::Str(s) => if s.len() == 1 {
                OutcomeView::Yield(ValueView::Int(s[0] as isize))
            } else {
                fail(
                    fun,
                    ErrorView::ValueError(v),
                    Some("The Str should have exactly 1 char got "@ + decimal(s.len() as int)),
                )
            },
            ValueView::Int(n) => if is_scalar(n as int) {
                OutcomeView::Yield(ValueView::Str(seq![n as char]))
            } else {
                fail(
                    fun,
                    ErrorView::ValueError(v),
                    Some("Cannot convert Int "@ + decimal(n as int) + " to a char"@),
                )
            },
            ValueView::Nil => fail(
                fun,
                ErrorView::ValueError(v),
                Some("Cannot convert None value"@),
            ),
        },
        FunView::Return(_) => OutcomeView::Raise(SignalView::Return(v)),
        _ => OutcomeView::Yield(v),
    }
}

/// The outcome of a call with two arguments that are both evaluated first.
///
/// - `a:` adds two integers, wrapping round at the ends of `isize`, or joins two texts.
/// - `=:` compares two integers or two texts and gives `1` or `0`.
/// - `x:` gives the character of a text at an index counted from zero in code points, as a
///   text of its own, and the empty text where the index is out of range.
///
/// A call of any other kind has the value of its second argument.
pub open spec fn binary(fun: FunView, a: ValueView, b: ValueView) -> OutcomeView {
    match fun {
        FunView::Add(..) => match (a, b) {
            (ValueView::Int(x), ValueView::Int(y)) => OutcomeView::Yield(
                ValueView::Int(x.wrapping_add(y)),
            ),
            (ValueView::Str(x), ValueView::Str(y)) => OutcomeView::Yield(ValueView::Str(x + y)),
            _ => fail(
                fun,
                ErrorView::Error(invalid_pair("You are trying to add "@, " and "@, a, b)),
                None,
            ),
        },
        FunView::Equal(..) => match (a, b) {
            (ValueView::Int(x), ValueView::Int(y)) => OutcomeView::Yield(
                ValueView::Int(if x == y {
                    1
                } else {
                    0
                }),
            ),
            (ValueView::Str(x), ValueView::Str(y)) => OutcomeView::Yield(
                ValueView::Int(if x == y {
                    1
                } else {
                    0
                }),
            ),
            _ => fail(
                fun,
                ErrorView::Error(invalid_pair("You are trying to compare "@, " and "@, a, b)),
                None,
            ),
        },
        FunView::Extract(..) => match (a, b) {
            (ValueView::Str(s), ValueView::Int(i)) => OutcomeView::Yield(
                ValueView::Str(
                    if 0 <= i < s.len() {
                        seq![s[i as int]]
                    } else {
                        Seq::empty()
                    },
                ),
            ),
            _ => fail(
                fun,
                ErrorView::Error(
                    invalid_pair(
                        "You are trying to extract from "@,
                        " using index value "@,
                        a,
                        b,
                    ),
                ),
                None,
            ),
        },
        _ => OutcomeView::Yield(b),
    }
}

/// The failure of `fun` with `error`.
pub(crate) fn failure(fun: &Fun, error: Error, note: Option<String>) -> (r: Outcome)
    ensures
        r@ == fail(fun@, error@, note.deep_view()),
{
    Outcome::Raise(Signal::Error(ErrorInfo::new(error, fun.clone(), note)))
}

fn wrong_type(fun: &Fun, expected: Value, got: Value) -> (r: Outcome)
    ensures
        r@ == type_error(fun@, expected@, got@),
{
    failure(fun, Error::TypeError { expected, got }, None)
}

fn bad_pair(fun: &Fun, lead: &str, mid: &str, a: &Value, b: &Value) -> (r: Outcome)
    ensures
        r@ == fail(fun@, ErrorView::Error(invalid_pair(lead@, mid@, a@, b@)), None),
{
    let mut message = String::from_str(lead);
    message.append(a.to_string().as_str());
    message.append(mid);
    message.append(b.to_string().as_str());
    message.append(" which is invalid");
    failure(fun, Error::Error(message), None)
}

fn print_text(v: Value) -> (r: String)
    ensures
        r@ == printed(v@),
{
    match v {
        Value::Str(s) => s,
        Value::Int(n) => int_to_string(n),
        Value::Nil => String::from_str("None"),
    }
}

fn throw_text(v: Value) -> (r: String)
    ensures
        r@ == thrown(v@),
{
    match v {
        Value::Str(s) => s,
        Value::Int(n) => int_to_string(n),
        Value::Nil => String::new(),
    }
}

fn look_up(labels: &LabelTable, fun: &Fun, v: Value) -> (r: Result<usize, Outcome>)
    ensures
        match v@ {
            ValueView::Str(name) => if labels@.contains_key(name) {
                r == Ok::<usize, Outcome>(labels@[name])
            } else {
                r matches Err(o) && o@ == fail(fun@, ErrorView::LabelError(name), None)
            },
            _ => r matches Err(o) && o@ == type_error(fun@, ValueView::Str(Seq::empty()), v@),
        },
{
    match v {
        Value::Str(name) => match labels.get(name.as_str()) {
            Some(line) => Ok(line),
            None => Err(failure(fun, Error::LabelError(name), None)),
        },
        _ => Err(wrong_type(fun, Value::Str(String::new()), v)),
    }
}

fn code_point(c: char) -> (r: isize)
    ensures
        r == c as isize,
{
    let code: u32 = c as u32;
    code as isize
}

fn convert(fun: &Fun, v: Value) -> (r: Outcome)
    requires
        fun@ is Convert,
    ensures
        r@ == unary(Map::empty(), Map::empty(), fun@, v@),
{
    match v {
        Value::Str(s) => {
            let chars = string_chars(s.as_str());
            if chars.len() == 1 {
                Outcome::Yield(Value::Int(code_point(chars[0])))
            } else {
                let mut note = String::from_str("The Str should have exactly 1 char got ");
                push_decimal(&mut note, chars.len() as u128);
                failure(fun, Error::ValueError(Value::Str(s)), Some(note))
            }
        },
        Value::Int(n) => {
            let found: Option<char> = if 0 <= n && n <= 0x10FFFF {
                char::from_u32(n as u32)
            } else {
                None
            };
            match found {
                Some(c) => {
                    let mut text = String::new();
                    text.push(c);
                    proof {
                        vstd::utf8::char_u32_cast(c, n as u32);
                        assert(c == n as char);
                    }
                    assert(text@ == seq![n as char]);
                    Outcome::Yield(Value::Str(text))
                },
                None => {
                    let mut note = String::from_str("Cannot convert Int ");
                    note.append(int_to_string(n).as_str());
                    note.append(" to a char");
                    failure(fun, Error::ValueError(Value::Int(n)), Some(note))
                },
            }
        },
        Value::Nil => failure(
            fun,
            Error::ValueError(Value::Nil),
            Some(String::from_str("Cannot convert None value")),
        ),
    }
}

/// Evaluates a call of one argument on the value of that argument.
pub fn apply_unary(labels: &LabelTable, slots: &SlotTable, fun: &Fun, v: Value) -> (r: Outcome)
    ensures
        r@ == unary(labels@, slots@, fun@, v@),
{
    match fun {
        Fun::Get(_) => match v {
            Value::Int(k) => Outcome::Yield(slots.get(k)),
            _ => wrong_type(fun, Value::Int(0), v),
        },
        Fun::Jump(_) => match look_up(labels, fun, v) {
            Ok(line) => Outcome::Raise(Signal::Jump(line)),
            Err(outcome) => outcome,
        },
        Fun::FunJump(_) => match look_up(labels, fun, v) {
            Ok(line) => Outcome::Run(line),
            Err(outcome) => outcome,
        },
        Fun::ThrowError(_) => failure(
            fun,
            Error::Error(throw_text(v)),
            Some(String::from_str("This is an error raise by function `!:`")),
        ),
        Fun::Print(_) => {
            let mut text = print_text(v);
            text.push('\n');
            Outcome::Emit(text)
        },
        Fun::Write(_) => Outcome::Emit(print_text(v)),
        Fun::Text(_) => match v {
            Value::Int(n) => Outcome::Yield(Value::Str(int_to_string(n))),
            _ => wrong_type(fun, Value::Int(0), v),
        },
        Fun::Number(_) => match v {
            Value::Str(s) => {
                let chars = string_chars(s.as_str());
                match parse_chars(&chars) {
                    Some(n) => Outcome::Yield(Value::Int(n)),
                    None => {
                        let value = Value::Str(s);
                        let mut note = String::from_str("Cannot convert ");
                        note.append(value.to_string().as_str());
                        note.append(" to an Int");
                        failure(fun, Error::ValueError(value), Some(note))
                    },
                }
            },
            _ => wrong_type(fun, Value::Int(0), v),
        },
        Fun::Convert(_) => convert(fun, v),
        Fun::Return(_) => Outcome::Raise(Signal::Return(v)),
        _ => Outcome::Yield(v),
    }
}

/// Evaluates a call of two arguments on their values.
pub fn apply_binary(fun: &Fun, a: Value, b: Value) -> (r: Outcome)
    ensures
        r@ == binary(fun@, a@, b@),
{
    match fun {
        Fun::Add(..) => match (a, b) {
            (Value::Int(x), Value::Int(y)) => Outcome::Yield(Value::Int(x.wrapping_add(y))),
            (Value::Str(x), Value::Str(y)) => {
                let mut joined = x;
                joined.append(y.as_str());
                Outcome::Yield(Value::Str(joined))
            },
            (a, b) => bad_pair(fun, "You are trying to add ", " and ", &a, &b),
        },
        Fun::Equal(..) => match (a, b) {
            (Value::Int(x), Value::Int(y)) => Outcome::Yield(
                Value::Int(if x == y {
                    1
                } else {
                    0
                }),
            ),
            (Value::Str(x), Value::Str(y)) => Outcome::Yield(
                Value::Int(if x == y {
                    1
                } else {
                    0
                }),
            ),
            (a, b) => bad_pair(fun, "You are trying to compare ", " and ", &a, &b),
        },
        Fun::Extract(..) => match (a, b) {
            (Value::Str(s), Value::Int(i)) => {
                let chars = string_chars(s.as_str());
                if 0 <= i && (i as usize) < chars.len() {
                    let at = i as usize;
                    let one = chars_to_string(&chars, at, at + 1);
                    assert(one@ == seq![s@[i as int]]);
                    Outcome::Yield(Value::Str(one))
                } else {
                    Outcome::Yield(Value::Str(String::new()))
                }
            },
            (a, b) => bad_pair(
                fun,
                "You are trying to extract from ",
                " using index value ",
                &a,
                &b,
            ),
        },
        _ => Outcome::Yield(b),
    }
}

/// `t:` undoes `n:` on a canonical numeral: the numeral read as an integer and written
/// again is the numeral.
pub proof fn lemma_text_of_number(
    labels: Map<Seq<char>, usize>,
    slots: Map<isize, ValueView>,
    a: ExprView,
    b: ExprView,
    s: Seq<char>,
)
    requires
        is_canonical(s),
        parse_int(s) is Some,
    ensures
        unary(labels, slots, FunView::Number(a), ValueView::Str(s)) == OutcomeView::Yield(
            ValueView::Int(parse_int(s)->0),
        ),
        unary(labels, slots, FunView::Text(b), ValueView::Int(parse_int(s)->0))
            == OutcomeView::Yield(ValueView::Str(s)),
{
    lemma_decimal_of_parse(s);
}

/// `n:` undoes `t:` on every integer.
pub proof fn lemma_number_of_text(
    labels: Map<Seq<char>, usize>,
    slots: Map<isize, ValueView>,
    a: ExprView,
    b: ExprView,
    n: isize,
)
    ensures
        unary(labels, slots, FunView::Text(a), ValueView::Int(n)) == OutcomeView::Yield(
            ValueView::Str(decimal(n as int)),
        ),
        unary(labels, slots, FunView::Number(b), ValueView::Str(decimal(n as int)))
            == OutcomeView::Yield(ValueView::Int(n)),
{
    lemma_parse_of_decimal(n);
}

} // verus!

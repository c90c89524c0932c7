//! The program model (values, expressions, built-in calls, instructions) and
//! the parser that builds it from tokens.
//!
//! The parser, and the copy of a call, recurse once for each level at which calls are
//! nested in a line.

use vstd::prelude::*;
use vstd::hash_map::StringHashMap;
use crate::errors::Code;
use crate::text::{debug_text, decimal, int_to_string, quoted, string_chars};
use crate::tokenizer::{
    is_identifier, room, Token, TokenCheck, TokenInfo, TokenInfoView, TokenView,
};

verus! {

/// A value of the language.
#[derive(Debug, PartialEq)]
pub enum Value {
    /// A text: a sequence of Unicode scalar values.
    Str(String),
    /// A signed integer.
    Int(isize),
    /// The absence of a value; it prints as `None`.
    Nil,
}

/// What a [`Value`] stands for.
pub enum ValueView {
    Str(Seq<char>),
    Int(isize),
    Nil,
}

impl View for Value {
    type V = ValueView;

    open spec fn view(&self) -> ValueView {
        match self {
            Value::Str(s) => ValueView::Str(s@),
            Value::Int(n) => ValueView::Int(*n),
            Value::Nil => ValueView::Nil,
        }
    }
}

impl DeepView for Value {
    type V = ValueView;

    open spec fn deep_view(&self) -> ValueView {
        self@
    }
}

impl Clone for Value {
    fn clone(&self) -> (r: Self)
        ensures
            r@ == self@,
    {
        match self {
            Value::Str(s) => Value::Str(s.clone()),
            Value::Int(n) => Value::Int(*n),
            Value::Nil => Value::Nil,
        }
    }
}

/// How a diagnostic shows a value: a text quoted and marked `(an Str)`, an integer in
/// decimal and marked `(an Int)`, the absent value as `None`.
pub open spec fn shown(v: ValueView) -> Seq<char> {
    match v {
        ValueView::Str(s) => debug_text(s) + " (an Str)"@,
        ValueView::Int(n) => decimal(n as int) + " (an Int)"@,
        ValueView::Nil => "None"@,
    }
}

impl Value {
    /// The value as a diagnostic shows it.
    pub fn to_string(&self) -> (r: String)
        ensures
            r@ == shown(self@),
    {
        match self {
            Value::Str(s) => {
                let mut out = quoted(s.as_str());
                out.append(" (an Str)");
                out
            },
            Value::Int(n) => {
                let mut out = int_to_string(*n);
                out.append(" (an Int)");
                out
            },
            Value::Nil => String::from_str("None"),
        }
    }
}

/// An argument of a call: a literal, or a nested call.
#[derive(Debug, PartialEq)]
pub enum Expr {
    Value(Value),
    FunCall(Box<Fun>),
}

/// A call of one of the built-in functions, with its arguments.
#[derive(Debug, PartialEq)]
pub enum Fun {
    /// `s:slot value` stores `value` in `slot`.
    SetSlot(Expr, Expr),
    /// `g:slot` reads `slot`.
    Get(Expr),
    /// `w:value` writes `value`.
    Write(Expr),
    /// `p:value` writes `value` and a newline.
    Print(Expr),
    /// `a:x y` adds two integers or joins two texts.
    Add(Expr, Expr),
    /// `j:label` continues after `label`.
    Jump(Expr),
    /// `=:x y` compares two integers or two texts.
    Equal(Expr, Expr),
    /// `c:value` converts between a one-character text and its code point.
    Convert(Expr),
    /// `x:text index` takes one character of `text`.
    Extract(Expr, Expr),
    /// `?:cond value` evaluates `value` only where `cond` is truthy.
    If(Expr, Expr),
    /// `i` reads a line of input.
    Input,
    /// `k` is kept for a raw keystroke and yields nothing.
    KeyChar,
    /// `t:n` is the decimal numeral of `n`.
    Text(Expr),
    /// `n:text` is the integer that `text` writes.
    Number(Expr),
    /// `#:label value` evaluates `value` and continues after `label` where it fails.
    CatchError(Expr, Expr),
    /// `!:value` fails with `value` as the message.
    ThrowError(Expr),
    /// `r:value` ends the innermost run with `value`.
    Return(Expr),
    /// `f:label` runs the instructions after `label` until they return.
    FunJump(Expr),
    /// `~` is the first free slot.
    EmptySlot,
    /// `$` ends the process.
    Exit,
}

/// What an [`Expr`] stands for.
pub enum ExprView {
    Value(ValueView),
    FunCall(Box<FunView>),
}

/// What a [`Fun`] stands for.
pub enum FunView {
    SetSlot(ExprView, ExprView),
    Get(ExprView),
    Write(ExprView),
    Print(ExprView),
    Add(ExprView, ExprView),
    Jump(ExprView),
    Equal(ExprView, ExprView),
    Convert(ExprView),
    Extract(ExprView, ExprView),
    If(ExprView, ExprView),
    Input,
    KeyChar,
    Text(ExprView),
    Number(ExprView),
    CatchError(ExprView, ExprView),
    ThrowError(ExprView),
    Return(ExprView),
    FunJump(ExprView),
    EmptySlot,
    Exit,
}

/// The view of an expression.
pub open spec fn expr_view(e: Expr) -> ExprView
    decreases e,
{
    match e {
        Expr::Value(v) => ExprView::Value(v@),
        Expr::FunCall(f) => ExprView::FunCall(Box::new(fun_view(*f))),
    }
}

/// The view of a call.
pub open spec fn fun_view(f: Fun) -> FunView
    decreases f,
{
    match f {
        Fun::SetSlot(a, b) => FunView::SetSlot(expr_view(a), expr_view(b)),
        Fun::Get(a) => FunView::Get(expr_view(a)),
        Fun::Write(a) => FunView::Write(expr_view(a)),
        Fun::Print(a) => FunView::Print(expr_view(a)),
        Fun::Add(a, b) => FunView::Add(expr_view(a), expr_view(b)),
        Fun::Jump(a) => FunView::Jump(expr_view(a)),
        Fun::Equal(a, b) => FunView::Equal(expr_view(a), expr_view(b)),
        Fun::Convert(a) => FunView::Convert(expr_view(a)),
        Fun::Extract(a, b) => FunView::Extract(expr_view(a), expr_view(b)),
        Fun::If(a, b) => FunView::If(expr_view(a), expr_view(b)),
        Fun::Input => FunView::Input,
        Fun::KeyChar => FunView::KeyChar,
        Fun::Text(a) => FunView::Text(expr_view(a)),
        Fun::Number(a) => FunView::Number(expr_view(a)),
        Fun::CatchError(a, b) => FunView::CatchError(expr_view(a), expr_view(b)),
        Fun::ThrowError(a) => FunView::ThrowError(expr_view(a)),
        Fun::Return(a) => FunView::Return(expr_view(a)),
        Fun::FunJump(a) => FunView::FunJump(expr_view(a)),
        Fun::EmptySlot => FunView::EmptySlot,
        Fun::Exit => FunView::Exit,
    }
}

impl View for Expr {
    type V = ExprView;

    open spec fn view(&self) -> ExprView {
        expr_view(*self)
    }
}

impl DeepView for Expr {
    type V = ExprView;

    open spec fn deep_view(&self) -> ExprView {
        self@
    }
}

impl View for Fun {
    type V = FunView;

    open spec fn view(&self) -> FunView {
        fun_view(*self)
    }
}

impl DeepView for Fun {
    type V = FunView;

    open spec fn deep_view(&self) -> FunView {
        self@
    }
}

impl Clone for Expr {
    fn clone(&self) -> (r: Self)
        ensures
            r@ == self@,
        decreases self,
    {
        match self {
            Expr::Value(v) => Expr::Value(v.clone()),
            Expr::FunCall(f) => {
                let inner: &Fun = &**f;
                Expr::FunCall(Box::new(inner.clone()))
            },
        }
    }
}

impl Clone for Fun {
    fn clone(&self) -> (r: Self)
        ensures
            r@ == self@,
        decreases self,
    {
        match self {
            Fun::SetSlot(a, b) => Fun::SetSlot(a.clone(), b.clone()),
            Fun::Get(a) => Fun::Get(a.clone()),
            Fun::Write(a) => Fun::Write(a.clone()),
            Fun::Print(a) => Fun::Print(a.clone()),
            Fun::Add(a, b) => Fun::Add(a.clone(), b.clone()),
            Fun::Jump(a) => Fun::Jump(a.clone()),
            Fun::Equal(a, b) => Fun::Equal(a.clone(), b.clone()),
            Fun::Convert(a) => Fun::Convert(a.clone()),
            Fun::Extract(a, b) => Fun::Extract(a.clone(), b.clone()),
            Fun::If(a, b) => Fun::If(a.clone(), b.clone()),
            Fun::Input => Fun::Input,
            Fun::KeyChar => Fun::KeyChar,
            Fun::Text(a) => Fun::Text(a.clone()),
            Fun::Number(a) => Fun::Number(a.clone()),
            Fun::CatchError(a, b) => Fun::CatchError(a.clone(), b.clone()),
            Fun::ThrowError(a) => Fun::ThrowError(a.clone()),
            Fun::Return(a) => Fun::Return(a.clone()),
            Fun::FunJump(a) => Fun::FunJump(a.clone()),
            Fun::EmptySlot => Fun::EmptySlot,
            Fun::Exit => Fun::Exit,
        }
    }
}

/// The mnemonic of a call, with a colon where it takes arguments.
pub open spec fn mnemonic(f: FunView) -> Seq<char> {
    match f {
        FunView::SetSlot(..) => "s:"@,
        FunView::Get(..) => "g:"@,
        FunView::Write(..) => "w:"@,
        FunView::Print(..) => "p:"@,
        FunView::Add(..) => "a:"@,
        FunView::Jump(..) => "j:"@,
        FunView::Equal(..) => "e:"@,
        FunView::Convert(..) => "c:"@,
        FunView::Extract(..) => "x:"@,
        FunView::If(..) => "?:"@,
        FunView::Input => "i"@,
        FunView::KeyChar => "k"@,
        FunView::Text(..) => "t:"@,
        FunView::Number(..) => "n:"@,
        FunView::CatchError(..) => "#:"@,
        FunView::ThrowError(..) => "!:"@,
        FunView::Return(..) => "r:"@,
        FunView::FunJump(..) => "f:"@,
        FunView::EmptySlot => "~"@,
        FunView::Exit => "$"@,
    }
}

impl Fun {
    /// The mnemonic of this call.
    pub fn to_string(&self) -> (r: String)
        ensures
            r@ == mnemonic(self@),
    {
        match self {
            Fun::SetSlot(..) => String::from_str("s:"),
            Fun::Get(..) => String::from_str("g:"),
            Fun::Write(..) => String::from_str("w:"),
            Fun::Print(..) => String::from_str("p:"),
            Fun::Add(..) => String::from_str("a:"),
            Fun::Jump(..) => String::from_str("j:"),
            Fun::Equal(..) => String::from_str("e:"),
            Fun::Convert(..) => String::from_str("c:"),
            Fun::Extract(..) => String::from_str("x:"),
            Fun::If(..) => String::from_str("?:"),
            Fun::Input => String::from_str("i"),
            Fun::KeyChar => String::from_str("k"),
            Fun::Text(..) => String::from_str("t:"),
            Fun::Number(..) => String::from_str("n:"),
            Fun::CatchError(..) => String::from_str("#:"),
            Fun::ThrowError(..) => String::from_str("!:"),
            Fun::Return(..) => String::from_str("r:"),
            Fun::FunJump(..) => String::from_str("f:"),
            Fun::EmptySlot => String::from_str("~"),
            Fun::Exit => String::from_str("$"),
        }
    }
}

/// One line of a program.
#[derive(Debug, PartialEq)]
pub enum Instr {
    /// Kept for a later use; the parser never makes one.
    SetLabel(String),
    /// Marks the line on which a label is defined; it does nothing when run.
    LabelPlaceHolder(String),
    /// A call.
    FunCall(Box<Fun>),
}

/// What an [`Instr`] stands for.
pub enum InstrView {
    SetLabel(Seq<char>),
    LabelPlaceHolder(Seq<char>),
    FunCall(FunView),
}

impl View for Instr {
    type V = InstrView;

    open spec fn view(&self) -> InstrView {
        match self {
            Instr::SetLabel(name) => InstrView::SetLabel(name@),
            Instr::LabelPlaceHolder(name) => InstrView::LabelPlaceHolder(name@),
            Instr::FunCall(f) => InstrView::FunCall(f@),
        }
    }
}

impl DeepView for Instr {
    type V = InstrView;

    open spec fn deep_view(&self) -> InstrView {
        self@
    }
}

impl Clone for Instr {
    fn clone(&self) -> (r: Self)
        ensures
            r@ == self@,
    {
        match self {
            Instr::SetLabel(name) => Instr::SetLabel(name.clone()),
            Instr::LabelPlaceHolder(name) => Instr::LabelPlaceHolder(name.clone()),
            Instr::FunCall(f) => {
                let inner: &Fun = &**f;
                Instr::FunCall(Box::new(inner.clone()))
            },
        }
    }
}

/// An instruction with the span of its line in the source, in bytes.
#[derive(Debug, PartialEq)]
pub struct InstrInfo {
    pub instr: Instr,
    pub start: usize,
    pub end: usize,
}

/// What an [`InstrInfo`] stands for.
pub struct InstrInfoView {
    pub instr: InstrView,
    pub start: usize,
    pub end: usize,
}

impl View for InstrInfo {
    type V = InstrInfoView;

    open spec fn view(&self) -> InstrInfoView {
        InstrInfoView { instr: self.instr@, start: self.start, end: self.end }
    }
}

impl DeepView for InstrInfo {
    type V = InstrInfoView;

    open spec fn deep_view(&self) -> InstrInfoView {
        self@
    }
}

impl Clone for InstrInfo {
    fn clone(&self) -> (r: Self)
        ensures
            r@ == self@,
    {
        InstrInfo { instr: self.instr.clone(), start: self.start, end: self.end }
    }
}

impl InstrInfo {
    /// An instruction with its span.
    pub fn new(instr: Instr, start: usize, end: usize) -> (r: Self)
        ensures
            r == (InstrInfo { instr, start, end }),
    {
        Self { instr, start, end }
    }
}

/// The labels of a program: each name with the index of the line that defines it.
pub struct LabelTable {
    map: StringHashMap<usize>,
}

impl View for LabelTable {
    type V = Map<Seq<char>, usize>;

    closed spec fn view(&self) -> Map<Seq<char>, usize> {
        self.map@
    }
}

impl LabelTable {
    /// A table without labels.
    pub fn new() -> (r: Self)
        ensures
            r@ == Map::<Seq<char>, usize>::empty(),
    {
        LabelTable { map: StringHashMap::new() }
    }

    /// The line that defines `name`, if one does.
    pub fn get(&self, name: &str) -> (r: Option<usize>)
        ensures
            r == (if self@.contains_key(name@) {
                Some(self@[name@])
            } else {
                None
            }),
    {
        match self.map.get(name) {
            Some(line) => Some(*line),
            None => None,
        }
    }

    /// Records that line `line` defines `name`; an earlier line of that name is forgotten.
    pub fn insert(&mut self, name: String, line: usize)
        ensures
            final(self)@ == old(self)@.insert(name@, line),
    {
        self.map.insert(name, line);
    }

    /// The number of labels.
    pub fn len(&self) -> (r: usize)
        ensures
            r == self@.len(),
    {
        broadcast use vstd::hash_map::group_hash_map_axioms;

        self.map.len()
    }
}

/// Why the parser gave up.
#[derive(Debug, PartialEq)]
pub enum ParseError {
    /// A label is defined a second time; `line` is the line of its first definition.
    LabelAlreadySet { label: String, line: Vec<TokenInfo> },
    /// A token stands where the grammar has no place for it.
    UnexpectedToken(TokenInfo),
    /// There is nothing to parse.
    InvalidSyntax,
    /// The line ends before the call `token_info` has its `expected` arguments.
    NotEnoughArgument { token_info: TokenInfo, got: usize, expected: usize },
    /// An identifier stands at the head of a call and names no function.
    UnknownFunctionName(TokenInfo),
}

/// What a [`ParseError`] stands for.
pub enum ParseErrorView {
    LabelAlreadySet { label: Seq<char>, line: Seq<TokenInfoView> },
    UnexpectedToken(TokenInfoView),
    InvalidSyntax,
    NotEnoughArgument { token_info: TokenInfoView, got: usize, expected: usize },
    UnknownFunctionName(TokenInfoView),
}

impl View for ParseError {
    type V = ParseErrorView;

    open spec fn view(&self) -> ParseErrorView {
        match self {
            ParseError::LabelAlreadySet { label, line } => ParseErrorView::LabelAlreadySet {
                label: label@,
                line: line.deep_view(),
            },
            ParseError::UnexpectedToken(t) => ParseErrorView::UnexpectedToken(t@),
            ParseError::InvalidSyntax => ParseErrorView::InvalidSyntax,
            ParseError::NotEnoughArgument {
                token_info,
                got,
                expected,
            } => ParseErrorView::NotEnoughArgument {
                token_info: token_info@,
                got: *got,
                expected: *expected,
            },
            ParseError::UnknownFunctionName(t) => ParseErrorView::UnknownFunctionName(t@),
        }
    }
}

/// The number of a parse error's kind: 301 for a label set twice, 302 for an unexpected
/// token, 303 for invalid syntax, 304 for a missing argument, 305 for an unknown function.
pub open spec fn parse_error_number(e: ParseErrorView) -> usize {
    match e {
        ParseErrorView::LabelAlreadySet { .. } => 301,
        ParseErrorView::UnexpectedToken(_) => 302,
        ParseErrorView::InvalidSyntax => 303,
        ParseErrorView::NotEnoughArgument { .. } => 304,
        ParseErrorView::UnknownFunctionName(_) => 305,
    }
}

/// The name of a parse error's kind.
pub open spec fn parse_error_name(e: ParseErrorView) -> Seq<char> {
    match e {
        ParseErrorView::LabelAlreadySet { .. } => "LabelAlreadySet"@,
        ParseErrorView::UnexpectedToken(_) => "UnexpectedToken"@,
        ParseErrorView::InvalidSyntax => "InvalidSyntax"@,
        ParseErrorView::NotEnoughArgument { .. } => "NotEnoughArgument"@,
        ParseErrorView::UnknownFunctionName(_) => "UnknownFunctionName"@,
    }
}

impl ParseError {
    /// The code of this error's kind.
    pub fn error_code(&self) -> (r: Code)
        ensures
            r == Code::ErrCode(parse_error_number(self@)),
    {
        Code::ErrCode(
            match self {
                ParseError::LabelAlreadySet { .. } => 301,
                ParseError::UnexpectedToken(..) => 302,
                ParseError::InvalidSyntax => 303,
                ParseError::NotEnoughArgument { .. } => 304,
                ParseError::UnknownFunctionName(..) => 305,
            },
        )
    }

    /// The name of this error's kind.
    pub fn to_string(&self) -> (r: String)
        ensures
            r@ == parse_error_name(self@),
    {
        match self {
            ParseError::LabelAlreadySet { .. } => String::from_str("LabelAlreadySet"),
            ParseError::UnexpectedToken(..) => String::from_str("UnexpectedToken"),
            ParseError::InvalidSyntax => String::from_str("InvalidSyntax"),
            ParseError::NotEnoughArgument { .. } => String::from_str("NotEnoughArgument"),
            ParseError::UnknownFunctionName(..) => String::from_str("UnknownFunctionName"),
        }
    }
}

/// A parse error with the tokens it was found in and an optional hint.
#[derive(Debug, PartialEq)]
pub struct ParseErrorInfo {
    pub error: ParseError,
    pub line: Vec<TokenInfo>,
    pub note: Option<String>,
}

/// What a [`ParseErrorInfo`] stands for.
pub struct ParseErrorInfoView {
    pub error: ParseErrorView,
    pub line: Seq<TokenInfoView>,
    pub note: Option<Seq<char>>,
}

impl View for ParseErrorInfo {
    type V = ParseErrorInfoView;

    open spec fn view(&self) -> ParseErrorInfoView {
        ParseErrorInfoView {
            error: self.error@,
            line: self.line.deep_view(),
            note: self.note.deep_view(),
        }
    }
}

impl ParseErrorInfo {
    /// A parse error found in `line`.
    pub fn new(error: ParseError, line: Vec<TokenInfo>, note: Option<String>) -> (r: Self)
        ensures
            r == (ParseErrorInfo { error, line, note }),
    {
        Self { error, line, note }
    }
}

/// A parse error found in `line`, without a hint.
pub open spec fn refused(error: ParseErrorView, line: Seq<TokenInfoView>) -> ParseErrorInfoView {
    ParseErrorInfoView { error, line, note: None }
}

/// The number of arguments of the function that a one-letter name stands for.
pub open spec fn letter_arity(c: char) -> Option<nat> {
    if c == 's' || c == 'a' || c == 'x' {
        Some(2)
    } else if c == 'g' || c == 'w' || c == 'p' || c == 'j' || c == 'c' || c == 'n' || c == 't'
        || c == 'f' || c == 'r' {
        Some(1)
    } else if c == 'i' || c == 'k' {
        Some(0)
    } else {
        None
    }
}

/// The number of arguments that the head of a call asks for; `None` where the token starts
/// no call.
pub open spec fn arity(head: TokenView) -> Option<nat> {
    match head {
        TokenView::Idn(name) => if name.len() == 1 {
            letter_arity(name[0])
        } else {
            None
        },
        TokenView::Que | TokenView::Eql | TokenView::Hsh => Some(2),
        TokenView::Not => Some(1),
        TokenView::Dol | TokenView::Til => Some(0),
        _ => None,
    }
}

/// The call that a head makes of its arguments.
pub open spec fn call(head: TokenView, args: Seq<ExprView>) -> FunView {
    match head {
        TokenView::Idn(name) => {
            let c = name[0];
            if c == 's' {
                FunView::SetSlot(args[0], args[1])
            } else if c == 'g' {
                FunView::Get(args[0])
            } else if c == 'w' {
                FunView::Write(args[0])
            } else if c == 'p' {
                FunView::Print(args[0])
            } else if c == 'a' {
                FunView::Add(args[0], args[1])
            } else if c == 'j' {
                FunView::Jump(args[0])
            } else if c == 'c' {
                FunView::Convert(args[0])
            } else if c == 'x' {
                FunView::Extract(args[0], args[1])
            } else if c == 'i' {
                FunView::Input
            } else if c == 'n' {
                FunView::Number(args[0])
            } else if c == 't' {
                FunView::Text(args[0])
            } else if c == 'f' {
                FunView::FunJump(args[0])
            } else if c == 'r' {
                FunView::Return(args[0])
            } else {
                FunView::KeyChar
            }
        },
        TokenView::Que => FunView::If(args[0], args[1]),
        TokenView::Eql => FunView::Equal(args[0], args[1]),
        TokenView::Hsh => FunView::CatchError(args[0], args[1]),
        TokenView::Not => FunView::ThrowError(args[0]),
        TokenView::Til => FunView::EmptySlot,
        _ => FunView::Exit,
    }
}

/// The call that starts at `line[pos]`, with the number of tokens that it takes after its
/// head.
///
/// The head decides the arity. A call with arguments has a colon after its head and then
/// its arguments, one after the other. An error carries the line from `pos` on.
pub open spec fn call_at(line: Seq<TokenInfoView>, pos: nat) -> Result<
    (nat, FunView),
    ParseErrorInfoView,
>
    decreases room(line.len(), pos), 0nat,
{
    let here = line.skip(pos as int);
    if pos >= line.len() {
        Err(refused(ParseErrorView::InvalidSyntax, here))
    } else {
        let head = line[pos as int];
        match arity(head.token) {
            None => if head.token is Idn {
                Err(refused(ParseErrorView::UnknownFunctionName(head), here))
            } else {
                Err(refused(ParseErrorView::UnexpectedToken(head), here))
            },
            Some(want) => if want == 0 {
                Ok((0, call(head.token, Seq::empty())))
            } else if pos + 1 >= line.len() {
                Err(
                    refused(
                        ParseErrorView::NotEnoughArgument {
                            token_info: head,
                            got: 0,
                            expected: want as usize,
                        },
                        here,
                    ),
                )
            } else if !(line[pos as int + 1].token is Col) {
                Err(refused(ParseErrorView::UnexpectedToken(line[pos as int + 1]), here))
            } else {
                match args_at(line, pos, pos + 2, want, Seq::empty()) {
                    Ok((end, args)) => Ok(((end - pos - 1) as nat, call(head.token, args))),
                    Err(e) => Err(e),
                }
            },
        }
    }
}

/// The arguments of the call whose head is `line[head_at]`, read from `line[pos]` on until
/// there are `want` of them, with the position after the last; `got` holds those read so
/// far.
///
/// A string or an integer is a literal. `~` and `$` are calls without arguments. A dot and
/// an integer read that slot. An identifier, `=`, `?`, `!` or `#` heads a nested call, which
/// takes as many tokens as it needs. The end of the line before the last argument is an
/// error, and so is any other token.
pub open spec fn args_at(
    line: Seq<TokenInfoView>,
    head_at: nat,
    pos: nat,
    want: nat,
    got: Seq<ExprView>,
) -> Result<(nat, Seq<ExprView>), ParseErrorInfoView>
    decreases room(line.len(), pos), 1nat,
{
    let here = line.skip(head_at as int);
    let missing = refused(
        ParseErrorView::NotEnoughArgument {
            token_info: line[head_at as int],
            got: got.len() as usize,
            expected: want as usize,
        },
        here,
    );
    if got.len() >= want {
        Ok((pos, got))
    } else if pos >= line.len() {
        Err(missing)
    } else {
        match line[pos as int].token {
            TokenView::Str(s) => args_at(
                line,
                head_at,
                pos + 1,
                want,
                got.push(ExprView::Value(ValueView::Str(s))),
            ),
            TokenView::Int(n) => args_at(
                line,
                head_at,
                pos + 1,
                want,
                got.push(ExprView::Value(ValueView::Int(n))),
            ),
            TokenView::Til => args_at(
                line,
                head_at,
                pos + 1,
                want,
                got.push(ExprView::FunCall(Box::new(FunView::EmptySlot))),
            ),
            TokenView::Dol => args_at(
                line,
                head_at,
                pos + 1,
                want,
                got.push(ExprView::FunCall(Box::new(FunView::Exit))),
            ),
            TokenView::Dot => if pos + 1 >= line.len() {
                Err(missing)
            } else {
                match dot_op(line.skip(pos as int)) {
                    Ok(f) => args_at(
                        line,
                        head_at,
                        pos + 2,
                        want,
                        got.push(ExprView::FunCall(Box::new(f))),
                    ),
                    Err(e) => Err(e),
                }
            },
            TokenView::Idn(_)
            | TokenView::Eql
            | TokenView::Que
            | TokenView::Not
            | TokenView::Hsh => match call_at(line, pos) {
                Ok((extra, f)) => args_at(
                    line,
                    head_at,
                    pos + 1 + extra,
                    want,
                    got.push(ExprView::FunCall(Box::new(f))),
                ),
                Err(e) => Err(e),
            },
            _ => Err(refused(ParseErrorView::UnexpectedToken(line[pos as int]), here)),
        }
    }
}

/// The slot read that `.n` is short for. A line of fewer than two tokens is no syntax at
/// all; any other start than a dot and an integer is refused for its second token.
pub open spec fn dot_op(line: Seq<TokenInfoView>) -> Result<FunView, ParseErrorInfoView> {
    if line.len() < 2 {
        Err(refused(ParseErrorView::InvalidSyntax, line))
    } else {
        match (line[0].token, line[1].token) {
            (TokenView::Dot, TokenView::Int(n)) => Ok(
                FunView::Get(ExprView::Value(ValueView::Int(n))),
            ),
            _ => Err(refused(ParseErrorView::UnexpectedToken(line[1]), line)),
        }
    }
}

/// What [`parse_func_call`] gives for a line: the call at its start as an expression, with
/// the number of tokens that it takes.
pub open spec fn func_call(line: Seq<TokenInfoView>) -> Result<(usize, ExprView), ParseErrorInfoView> {
    match call_at(line, 0) {
        Ok((extra, f)) => Ok(((extra + 1) as usize, ExprView::FunCall(Box::new(f)))),
        Err(e) => Err(e),
    }
}

/// The view of the result of parsing one call.
pub open spec fn call_view(r: Result<(usize, Expr), ParseErrorInfo>) -> Result<
    (usize, ExprView),
    ParseErrorInfoView,
> {
    match r {
        Ok((used, e)) => Ok((used, e@)),
        Err(e) => Err(e@),
    }
}

/// A copy of the tokens of `line` from `from` on.
fn copy_tokens(line: &Vec<TokenInfo>, from: usize) -> (r: Vec<TokenInfo>)
    requires
        from <= line.len(),
    ensures
        r.deep_view() == line.deep_view().skip(from as int),
{
    let mut out: Vec<TokenInfo> = Vec::new();
    let mut i: usize = from;
    while i < line.len()
        invariant
            from <= i <= line.len(),
            out.deep_view() == line.deep_view().subrange(from as int, i as int),
        decreases line.len() - i,
    {
        let ghost before = out.deep_view();
        out.push(line[i].clone());
        assert(out.deep_view() =~= before.push(line[i as int]@));
        assert(line.deep_view().subrange(from as int, i + 1) =~= before.push(line[i as int]@));
        i += 1;
    }
    assert(line.deep_view().subrange(from as int, line.len() as int) =~= line.deep_view().skip(
        from as int,
    ));
    out
}

fn refuse(error: ParseError, line: &Vec<TokenInfo>, from: usize) -> (r: ParseErrorInfo)
    requires
        from <= line.len(),
    ensures
        r@ == refused(error@, line.deep_view().skip(from as int)),
{
    ParseErrorInfo::new(error, copy_tokens(line, from), None)
}

fn head_arity(head: &Token) -> (r: Option<usize>)
    ensures
        match r {
            Some(n) => arity(head@) == Some(n as nat),
            None => arity(head@) is None,
        },
{
    match head {
        Token::Idn(name) => {
            let chars = string_chars(name.as_str());
            if chars.len() != 1 {
                return None;
            }
            let c = chars[0];
            if c == 's' || c == 'a' || c == 'x' {
                Some(2)
            } else if c == 'g' || c == 'w' || c == 'p' || c == 'j' || c == 'c' || c == 'n' || c
                == 't' || c == 'f' || c == 'r' {
                Some(1)
            } else if c == 'i' || c == 'k' {
                Some(0)
            } else {
                None
            }
        },
        Token::Que | Token::Eql | Token::Hsh => Some(2),
        Token::Not => Some(1),
        Token::Dol | Token::Til => Some(0),
        _ => None,
    }
}

fn take_last(args: &mut Vec<Expr>) -> (last: Expr)
    requires
        old(args).len() > 0,
    ensures
        last@ == old(args).deep_view().last(),
        final(args).deep_view() == old(args).deep_view().drop_last(),
        final(args).len() == old(args).len() - 1,
{
    let last = args.pop().unwrap();
    assert(final(args).deep_view() =~= old(args).deep_view().drop_last());
    last
}

fn build(head: &Token, args: Vec<Expr>) -> (r: Fun)
    requires
        arity(head@) == Some(args.len() as nat),
    ensures
        r@ == call(head@, args.deep_view()),
{
    let mut args = args;
    let ghost all = args.deep_view();
    match head {
        Token::Idn(name) => {
            let chars = string_chars(name.as_str());
            let c = chars[0];
            if c == 'i' {
                Fun::Input
            } else if c == 'k' {
                Fun::KeyChar
            } else if c == 's' || c == 'a' || c == 'x' {
                let b = take_last(&mut args);
                let a = take_last(&mut args);
                assert(a@ == all[0] && b@ == all[1]);
                if c == 's' {
                    Fun::SetSlot(a, b)
                } else if c == 'a' {
                    Fun::Add(a, b)
                } else {
                    Fun::Extract(a, b)
                }
            } else {
                let a = take_last(&mut args);
                assert(a@ == all[0]);
                if c == 'g' {
                    Fun::Get(a)
                } else if c == 'w' {
                    Fun::Write(a)
                } else if c == 'p' {
                    Fun::Print(a)
                } else if c == 'j' {
                    Fun::Jump(a)
                } else if c == 'c' {
                    Fun::Convert(a)
                } else if c == 'n' {
                    Fun::Number(a)
                } else if c == 't' {
                    Fun::Text(a)
                } else if c == 'f' {
                    Fun::FunJump(a)
                } else {
                    Fun::Return(a)
                }
            }
        },
        Token::Que => {
            let b = take_last(&mut args);
            let a = take_last(&mut args);
            assert(a@ == all[0] && b@ == all[1]);
            Fun::If(a, b)
        },
        Token::Eql => {
            let b = take_last(&mut args);
            let a = take_last(&mut args);
            assert(a@ == all[0] && b@ == all[1]);
            Fun::Equal(a, b)
        },
        Token::Hsh => {
            let b = take_last(&mut args);
            let a = take_last(&mut args);
            assert(a@ == all[0] && b@ == all[1]);
            Fun::CatchError(a, b)
        },
        Token::Not => {
            let a = take_last(&mut args);
            assert(a@ == all[0]);
            Fun::ThrowError(a)
        },
        Token::Til => Fun::EmptySlot,
        _ => Fun::Exit,
    }
}

fn dot_at(line: &Vec<TokenInfo>, pos: usize) -> (r: Result<Fun, ParseErrorInfo>)
    requires
        pos <= line.len(),
    ensures
        match r {
            Ok(f) => dot_op(line.deep_view().skip(pos as int)) == Ok::<
                FunView,
                ParseErrorInfoView,
            >(f@),
            Err(e) => dot_op(line.deep_view().skip(pos as int)) == Err::<
                FunView,
                ParseErrorInfoView,
            >(e@),
        },
{
    let ghost here = line.deep_view().skip(pos as int);
    if line.len() - pos < 2 {
        return Err(refuse(ParseError::InvalidSyntax, line, pos));
    }
    assert(here[0] == line[pos as int]@ && here[1] == line[pos + 1]@);
    match (&line[pos].token, &line[pos + 1].token) {
        (Token::Dot, Token::Int(n)) => Ok(Fun::Get(Expr::Value(Value::Int(*n)))),
        _ => Err(refuse(ParseError::UnexpectedToken(line[pos + 1].clone()), line, pos)),
    }
}

fn parse_call_at(line: &Vec<TokenInfo>, pos: usize) -> (r: Result<(usize, Fun), ParseErrorInfo>)
    requires
        pos <= line.len(),
    ensures
        match r {
            Ok((used, f)) => {
                &&& 1 <= used <= line.len() - pos
                &&& call_at(line.deep_view(), pos as nat) == Ok::<
                    (nat, FunView),
                    ParseErrorInfoView,
                >(((used - 1) as nat, f@))
            },
            Err(e) => call_at(line.deep_view(), pos as nat) == Err::<
                (nat, FunView),
                ParseErrorInfoView,
            >(e@),
        },
    decreases room(line.len() as nat, pos as nat), 0nat,
{
    let ghost tokens = line.deep_view();
    if pos >= line.len() {
        return Err(refuse(ParseError::InvalidSyntax, line, pos));
    }
    let head = &line[pos];
    assert(tokens[pos as int] == head@);
    let want = match head_arity(&head.token) {
        Some(n) => n,
        None => {
            return match &head.token {
                Token::Idn(_) => Err(
                    refuse(ParseError::UnknownFunctionName(head.clone()), line, pos),
                ),
                _ => Err(refuse(ParseError::UnexpectedToken(head.clone()), line, pos)),
            };
        },
    };
    if want == 0 {
        let args: Vec<Expr> = Vec::new();
        assert(args.deep_view() =~= Seq::<ExprView>::empty());
        return Ok((1, build(&head.token, args)));
    }
    if line.len() - pos < 2 {
        return Err(
            refuse(
                ParseError::NotEnoughArgument {
                    token_info: head.clone(),
                    got: 0,
                    expected: want,
                },
                line,
                pos,
            ),
        );
    }
    assert(tokens[pos + 1] == line[pos + 1]@);
    match &line[pos + 1].token {
        Token::Col => {},
        _ => {
            return Err(refuse(ParseError::UnexpectedToken(line[pos + 1].clone()), line, pos));
        },
    }
    let mut args: Vec<Expr> = Vec::new();
    let mut at: usize = pos + 2;
    assert(args.deep_view() =~= Seq::<ExprView>::empty());
    let ghost goal = args_at(tokens, pos as nat, (pos + 2) as nat, want as nat, Seq::empty());
    assert(call_at(tokens, pos as nat) == (match goal {
        Ok((end, found)) => Ok(((end - pos - 1) as nat, call(tokens[pos as int].token, found))),
        Err(e) => Err(e),
    }));
    while args.len() < want
        invariant
            pos + 2 <= at <= line.len(),
            args.len() <= want <= 2,
            tokens == line.deep_view(),
            arity(tokens[pos as int].token) == Some(want as nat),
            tokens[pos as int] == head@,
            call_at(tokens, pos as nat) == (match goal {
                Ok((end, found)) => Ok(
                    ((end - pos - 1) as nat, call(tokens[pos as int].token, found)),
                ),
                Err(e) => Err(e),
            }),
            goal == args_at(
                tokens,
                pos as nat,
                at as nat,
                want as nat,
                args.deep_view(),
            ),
        decreases line.len() - at,
    {
        let ghost got = args.deep_view();
        if at >= line.len() {
            return Err(
                refuse(
                    ParseError::NotEnoughArgument {
                        token_info: line[pos].clone(),
                        got: args.len(),
                        expected: want,
                    },
                    line,
                    pos,
                ),
            );
        }
        assert(tokens[at as int] == line[at as int]@);
        match &line[at].token {
            Token::Str(s) => {
                args.push(Expr::Value(Value::Str(s.clone())));
                assert(args.deep_view() =~= got.push(ExprView::Value(ValueView::Str(s@))));
                at += 1;
            },
            Token::Int(n) => {
                args.push(Expr::Value(Value::Int(*n)));
                assert(args.deep_view() =~= got.push(ExprView::Value(ValueView::Int(*n))));
                at += 1;
            },
            Token::Til => {
                args.push(Expr::FunCall(Box::new(Fun::EmptySlot)));
                assert(args.deep_view() =~= got.push(
                    ExprView::FunCall(Box::new(FunView::EmptySlot)),
                ));
                at += 1;
            },
            Token::Dol => {
                args.push(Expr::FunCall(Box::new(Fun::Exit)));
                assert(args.deep_view() =~= got.push(ExprView::FunCall(Box::new(FunView::Exit))));
                at += 1;
            },
            Token::Dot => {
                if line.len() - at < 2 {
                    return Err(
                        refuse(
                            ParseError::NotEnoughArgument {
                                token_info: line[pos].clone(),
                                got: args.len(),
                                expected: want,
                            },
                            line,
                            pos,
                        ),
                    );
                }
                match dot_at(line, at) {
                    Ok(f) => {
                        args.push(Expr::FunCall(Box::new(f)));
                        assert(args.deep_view() =~= got.push(ExprView::FunCall(Box::new(f@))));
                        at += 2;
                    },
                    Err(e) => {
                        return Err(e);
                    },
                }
            },
            Token::Idn(_) | Token::Eql | Token::Que | Token::Not | Token::Hsh => {
                match parse_call_at(line, at) {
                    Ok((used, f)) => {
                        args.push(Expr::FunCall(Box::new(f)));
                        assert(args.deep_view() =~= got.push(ExprView::FunCall(Box::new(f@))));
                        at += used;
                    },
                    Err(e) => {
                        return Err(e);
                    },
                }
            },
            _ => {
                return Err(refuse(ParseError::UnexpectedToken(line[at].clone()), line, pos));
            },
        }
    }
    Ok((at - pos, build(&head.token, args)))
}

/// Parses the slot read that `.n` is short for, at the start of `line`. It takes two tokens.
pub fn parse_dot_op(line: Vec<TokenInfo>) -> (r: Result<(usize, Expr), ParseErrorInfo>)
    ensures
        call_view(r) == (match dot_op(line.deep_view()) {
            Ok(f) => Ok((2usize, ExprView::FunCall(Box::new(f)))),
            Err(e) => Err(e),
        }),
{
    assert(line.deep_view().skip(0) =~= line.deep_view());
    match dot_at(&line, 0) {
        Ok(f) => Ok((2, Expr::FunCall(Box::new(f)))),
        Err(e) => Err(e),
    }
}

/// Parses the call at the start of `line` and says how many tokens it takes.
pub fn parse_func_call(line: Vec<TokenInfo>) -> (r: Result<(usize, Expr), ParseErrorInfo>)
    ensures
        call_view(r) == func_call(line.deep_view()),
{
    match parse_call_at(&line, 0) {
        Ok((used, f)) => Ok((used, Expr::FunCall(Box::new(f)))),
        Err(e) => Err(e),
    }
}

/// The lines of a token list, read from `tokens[i]` on: `current` holds the tokens of the
/// line that is being read and `done` the lines before it. A line ends at an `Eol` token or
/// with the list; a line without tokens is dropped.
pub open spec fn split_from(
    tokens: Seq<TokenInfoView>,
    i: nat,
    current: Seq<TokenInfoView>,
    done: Seq<Seq<TokenInfoView>>,
) -> Seq<Seq<TokenInfoView>>
    decreases room(tokens.len(), i),
{
    let closed = if current.len() > 0 {
        done.push(current)
    } else {
        done
    };
    if i >= tokens.len() {
        closed
    } else if tokens[i as int].token is Eol {
        split_from(tokens, i + 1, Seq::empty(), closed)
    } else {
        split_from(tokens, i + 1, current.push(tokens[i as int]), done)
    }
}

/// The lines of a token list that hold a token, in order.
pub open spec fn split_lines(tokens: Seq<TokenInfoView>) -> Seq<Seq<TokenInfoView>> {
    split_from(tokens, 0, Seq::empty(), Seq::empty())
}

/// The hint for a label line whose second token is `second`: a string literal that could
/// be an identifier was probably meant as the label.
pub open spec fn label_note(second: TokenView) -> Option<Seq<char>> {
    match second {
        TokenView::Str(s) => if is_identifier(s) {
            Some("Maybe you meant `;"@ + s + "`"@)
        } else {
            None
        },
        _ => None,
    }
}

/// The instruction that line `n` of `lines` makes, with the label table after it.
///
/// - A line that starts with `;` defines a label and must be `;` and an identifier. The
///   label is recorded with the line's index; a label that the table holds already is an
///   error that carries the line of its first definition.
/// - A line that starts with an identifier, `$`, `?`, `=`, `!` or `#` is a call; what follows
///   the call on the line is not read.
/// - Any other line is refused for its first token.
pub open spec fn line_parsed(
    lines: Seq<Seq<TokenInfoView>>,
    n: nat,
    labels: Map<Seq<char>, usize>,
) -> Result<(Map<Seq<char>, usize>, InstrInfoView), ParseErrorInfoView> {
    let line = lines[n as int];
    let start = line[0].start;
    let end = line.last().end;
    match line[0].token {
        TokenView::Smi => if line.len() == 1 {
            Err(refused(ParseErrorView::UnexpectedToken(line[0]), line))
        } else {
            match line[1].token {
                TokenView::Idn(name) if line.len() == 2 => if labels.contains_key(name) {
                    Err(
                        refused(
                            ParseErrorView::LabelAlreadySet {
                                label: name,
                                line: lines[labels[name] as int],
                            },
                            line,
                        ),
                    )
                } else {
                    Ok(
                        (
                            labels.insert(name, n as usize),
                            InstrInfoView { instr: InstrView::LabelPlaceHolder(name), start, end },
                        ),
                    )
                },
                second => Err(
                    ParseErrorInfoView {
                        error: ParseErrorView::UnexpectedToken(line[1]),
                        line,
                        note: label_note(second),
                    },
                ),
            }
        },
        TokenView::Idn(_)
        | TokenView::Dol
        | TokenView::Que
        | TokenView::Eql
        | TokenView::Not
        | TokenView::Hsh => match call_at(line, 0) {
            Ok((_, f)) => Ok((labels, InstrInfoView { instr: InstrView::FunCall(f), start, end })),
            Err(e) => Err(e),
        },
        _ => Err(refused(ParseErrorView::UnexpectedToken(line[0]), line)),
    }
}

/// The program that `lines` make from line `n` on, after `labels` and `instrs` for the
/// lines before.
pub open spec fn lines_parsed(
    lines: Seq<Seq<TokenInfoView>>,
    n: nat,
    labels: Map<Seq<char>, usize>,
    instrs: Seq<InstrInfoView>,
) -> Result<(Map<Seq<char>, usize>, Seq<InstrInfoView>), ParseErrorInfoView>
    decreases room(lines.len(), n),
{
    if n >= lines.len() {
        Ok((labels, instrs))
    } else {
        match line_parsed(lines, n, labels) {
            Ok((next, instr)) => lines_parsed(lines, n + 1, next, instrs.push(instr)),
            Err(e) => Err(e),
        }
    }
}

/// The program that a token list makes: one instruction for each line that holds a token,
/// and the label table.
pub open spec fn parsed(tokens: Seq<TokenInfoView>) -> Result<
    (Map<Seq<char>, usize>, Seq<InstrInfoView>),
    ParseErrorInfoView,
> {
    lines_parsed(split_lines(tokens), 0, Map::empty(), Seq::empty())
}

/// True where the label table and the instructions agree: every label names the line of a
/// placeholder for it, and every placeholder is the line of its label. So no name is
/// defined on two lines.
pub open spec fn labels_agree(labels: Map<Seq<char>, usize>, instrs: Seq<InstrInfoView>) -> bool {
    &&& forall|name: Seq<char>| #[trigger]
        labels.contains_key(name) ==> labels[name] < instrs.len() && instrs[labels[name] as int].instr
            == InstrView::LabelPlaceHolder(name)
    &&& forall|i: int|
        0 <= i < instrs.len() ==> match (#[trigger] instrs[i]).instr {
            InstrView::LabelPlaceHolder(name) => labels.contains_key(name) && labels[name] == i,
            _ => true,
        }
}

/// The view of what [`parse`] gives.
pub open spec fn program_view(r: Result<(LabelTable, Vec<InstrInfo>), ParseErrorInfo>) -> Result<
    (Map<Seq<char>, usize>, Seq<InstrInfoView>),
    ParseErrorInfoView,
> {
    match r {
        Ok((labels, instrs)) => Ok((labels@, instrs.deep_view())),
        Err(e) => Err(e@),
    }
}

fn split(token_infos: &Vec<TokenInfo>) -> (lines: Vec<Vec<TokenInfo>>)
    ensures
        lines.deep_view() == split_lines(token_infos.deep_view()),
        forall|k: int| 0 <= k < lines.len() ==> (#[trigger] lines[k]).len() > 0,
{
    let ghost tokens = token_infos.deep_view();
    let mut lines: Vec<Vec<TokenInfo>> = Vec::new();
    let mut current: Vec<TokenInfo> = Vec::new();
    let mut i: usize = 0;
    assert(lines.deep_view() =~= Seq::<Seq<TokenInfoView>>::empty());
    assert(current.deep_view() =~= Seq::<TokenInfoView>::empty());
    while i < token_infos.len()
        invariant
            i <= token_infos.len(),
            tokens == token_infos.deep_view(),
            split_lines(tokens) == split_from(
                tokens,
                i as nat,
                current.deep_view(),
                lines.deep_view(),
            ),
            forall|k: int| 0 <= k < lines.len() ==> (#[trigger] lines[k]).len() > 0,
        decreases token_infos.len() - i,
    {
        let ghost done = lines.deep_view();
        let ghost pending = current.deep_view();
        assert(tokens[i as int] == token_infos[i as int]@);
        match &token_infos[i].token {
            Token::Eol => {
                if current.len() > 0 {
                    lines.push(current);
                    assert(lines.deep_view() =~= done.push(pending));
                }
                current = Vec::new();
                assert(current.deep_view() =~= Seq::<TokenInfoView>::empty());
            },
            _ => {
                current.push(token_infos[i].clone());
                assert(current.deep_view() =~= pending.push(tokens[i as int]));
            },
        }
        i += 1;
    }
    let ghost done = lines.deep_view();
    let ghost pending = current.deep_view();
    if current.len() > 0 {
        lines.push(current);
        assert(lines.deep_view() =~= done.push(pending));
    }
    lines
}

fn label_hint(second: &Token) -> (r: Option<String>)
    ensures
        r.deep_view() == label_note(second@),
{
    match second {
        Token::Str(s) => if TokenCheck::is_iden(s) {
            let mut note = String::from_str("Maybe you meant `;");
            note.append(s.as_str());
            note.append("`");
            Some(note)
        } else {
            None
        },
        _ => None,
    }
}

/// Parses a token list into the label table and the instructions of a program.
///
/// On success the table and the instructions agree ([`labels_agree`]).
pub fn parse(token_infos: Vec<TokenInfo>) -> (r: Result<
    (LabelTable, Vec<InstrInfo>),
    ParseErrorInfo,
>)
    ensures
        program_view(r) == parsed(token_infos.deep_view()),
        r matches Ok((labels, instrs)) ==> labels_agree(labels@, instrs.deep_view()),
{
    let lines = split(&token_infos);
    let ghost all = lines.deep_view();
    let mut labels = LabelTable::new();
    let mut instrs: Vec<InstrInfo> = Vec::new();
    let mut n: usize = 0;
    assert(instrs.deep_view() =~= Seq::<InstrInfoView>::empty());
    while n < lines.len()
        invariant
            n <= lines.len(),
            instrs.len() == n,
            all == lines.deep_view(),
            forall|k: int| 0 <= k < lines.len() ==> (#[trigger] lines[k]).len() > 0,
            parsed(token_infos.deep_view()) == lines_parsed(
                all,
                n as nat,
                labels@,
                instrs.deep_view(),
            ),
            labels_agree(labels@, instrs.deep_view()),
        decreases lines.len() - n,
    {
        let line = &lines[n];
        let ghost tokens = line.deep_view();
        let ghost before = instrs.deep_view();
        let ghost known = labels@;
        assert(all[n as int] == tokens);
        assert(tokens[0] == line[0]@);
        assert(tokens.last() == line[line.len() - 1]@);
        assert(tokens.skip(0) =~= tokens);
        let start = line[0].start;
        let end = line[line.len() - 1].end;
        match &line[0].token {
            Token::Smi => {
                if line.len() == 1 {
                    return Err(refuse(ParseError::UnexpectedToken(line[0].clone()), line, 0));
                }
                assert(tokens[1] == line[1]@);
                match &line[1].token {
                    Token::Idn(name) if line.len() == 2 => {
                        match labels.get(name.as_str()) {
                            Some(first) => {
                                assert(all[first as int] == lines[first as int].deep_view());
                                assert(all[first as int].skip(0) =~= all[first as int]);
                                return Err(
                                    refuse(
                                        ParseError::LabelAlreadySet {
                                            label: name.clone(),
                                            line: copy_tokens(&lines[first], 0),
                                        },
                                        line,
                                        0,
                                    ),
                                );
                            },
                            None => {
                                labels.insert(name.clone(), n);
                                instrs.push(
                                    InstrInfo::new(
                                        Instr::LabelPlaceHolder(name.clone()),
                                        start,
                                        end,
                                    ),
                                );
                                let ghost made = InstrInfoView {
                                    instr: InstrView::LabelPlaceHolder(name@),
                                    start,
                                    end,
                                };
                                assert(instrs.deep_view() =~= before.push(made));
                                assert(labels_agree(labels@, instrs.deep_view())) by {
                                    assert forall|other: Seq<char>| #[trigger]
                                        labels@.contains_key(other) implies labels@[other]
                                        < instrs.len() && instrs.deep_view()[labels@[other] as int].instr
                                        == InstrView::LabelPlaceHolder(other) by {
                                        if other != name@ {
                                            assert(known.contains_key(other));
                                        }
                                    }
                                    assert forall|i: int| 0 <= i < instrs.len() implies match (
                                    #[trigger] instrs.deep_view()[i]).instr {
                                        InstrView::LabelPlaceHolder(other) => labels@.contains_key(
                                            other,
                                        ) && labels@[other] == i,
                                        _ => true,
                                    } by {
                                        if i < n {
                                            assert(instrs.deep_view()[i] == before[i]);
                                        }
                                    }
                                }
                            },
                        }
                    },
                    second => {
                        return Err(
                            ParseErrorInfo::new(
                                ParseError::UnexpectedToken(line[1].clone()),
                                copy_tokens(line, 0),
                                label_hint(second),
                            ),
                        );
                    },
                }
            },
            Token::Idn(_) | Token::Dol | Token::Que | Token::Eql | Token::Not | Token::Hsh => {
                match parse_call_at(line, 0) {
                    Ok((_, f)) => {
                        let ghost made = InstrInfoView {
                            instr: InstrView::FunCall(f@),
                            start,
                            end,
                        };
                        instrs.push(InstrInfo::new(Instr::FunCall(Box::new(f)), start, end));
                        assert(instrs.deep_view() =~= before.push(made));
                        assert(labels_agree(labels@, instrs.deep_view())) by {
                            assert forall|i: int| 0 <= i < instrs.len() implies match (
                            #[trigger] instrs.deep_view()[i]).instr {
                                InstrView::LabelPlaceHolder(other) => labels@.contains_key(other)
                                    && labels@[other] == i,
                                _ => true,
                            } by {
                                if i < n {
                                    assert(instrs.deep_view()[i] == before[i]);
                                }
                            }
                        }
                    },
                    Err(e) => {
                        return Err(e);
                    },
                }
            },
            _ => {
                return Err(refuse(ParseError::UnexpectedToken(line[0].clone()), line, 0));
            },
        }
        n += 1;
    }
    Ok((labels, instrs))
}

} // verus!

//! Tokens and the tokenizer.

use vstd::prelude::*;
use crate::errors::Code;
use crate::scanner::Char;
use crate::text::{
    chars_to_string, debug_text, decimal, int_to_string, is_digit, is_letter, parse_chars,
    parse_int, quoted,
};

verus! {

/// A token of the language.
#[derive(Debug, PartialEq)]
pub enum Token {
    /// A string literal, with its escapes resolved.
    Str(String),
    /// An integer literal.
    Int(isize),
    /// An identifier.
    Idn(String),
    /// `~`
    Til,
    /// `:`
    Col,
    /// `;`
    Smi,
    /// `.`
    Dot,
    /// The end of a line.
    Eol,
    /// `$`
    Dol,
    /// `?`
    Que,
    /// `=`
    Eql,
    /// `!`
    Not,
    /// `#`
    Hsh,
}

/// What a [`Token`] stands for.
pub enum TokenView {
    Str(Seq<char>),
    Int(isize),
    Idn(Seq<char>),
    Til,
    Col,
    Smi,
    Dot,
    Eol,
    Dol,
    Que,
    Eql,
    Not,
    Hsh,
}

impl View for Token {
    type V = TokenView;

    open spec fn view(&self) -> TokenView {
        match self {
            Token::Str(s) => TokenView::Str(s@),
            Token::Int(n) => TokenView::Int(*n),
            Token::Idn(s) => TokenView::Idn(s@),
            Token::Til => TokenView::Til,
            Token::Col => TokenView::Col,
            Token::Smi => TokenView::Smi,
            Token::Dot => TokenView::Dot,
            Token::Eol => TokenView::Eol,
            Token::Dol => TokenView::Dol,
            Token::Que => TokenView::Que,
            Token::Eql => TokenView::Eql,
            Token::Not => TokenView::Not,
            Token::Hsh => TokenView::Hsh,
        }
    }
}

impl Clone for Token {
    fn clone(&self) -> (r: Self)
        ensures
            r@ == self@,
    {
        match self {
            Token::Str(s) => Token::Str(s.clone()),
            Token::Int(n) => Token::Int(*n),
            Token::Idn(s) => Token::Idn(s.clone()),
            Token::Til => Token::Til,
            Token::Col => Token::Col,
            Token::Smi => Token::Smi,
            Token::Dot => Token::Dot,
            Token::Eol => Token::Eol,
            Token::Dol => Token::Dol,
            Token::Que => Token::Que,
            Token::Eql => Token::Eql,
            Token::Not => Token::Not,
            Token::Hsh => Token::Hsh,
        }
    }
}

/// How a diagnostic shows a token: a string literal quoted, an integer in decimal, an
/// identifier as it is, the end of a line as `EOL`, any other by its character.
pub open spec fn token_text(t: TokenView) -> Seq<char> {
    match t {
        TokenView::Str(s) => debug_text(s),
        TokenView::Int(n) => decimal(n as int),
        TokenView::Idn(s) => s,
        TokenView::Til => "~"@,
        TokenView::Col => ":"@,
        TokenView::Smi => ";"@,
        TokenView::Dot => "."@,
        TokenView::Eol => "EOL"@,
        TokenView::Dol => "$"@,
        TokenView::Que => "?"@,
        TokenView::Eql => "="@,
        TokenView::Not => "!"@,
        TokenView::Hsh => "#"@,
    }
}

impl Token {
    /// The token as a diagnostic shows it.
    pub fn to_string(&self) -> (r: String)
        ensures
            r@ == token_text(self@),
    {
        match self {
            Token::Str(s) => quoted(s.as_str()),
            Token::Int(n) => int_to_string(*n),
            Token::Idn(s) => s.clone(),
            Token::Til => String::from_str("~"),
            Token::Col => String::from_str(":"),
            Token::Smi => String::from_str(";"),
            Token::Dot => String::from_str("."),
            Token::Eol => String::from_str("EOL"),
            Token::Dol => String::from_str("$"),
            Token::Que => String::from_str("?"),
            Token::Eql => String::from_str("="),
            Token::Not => String::from_str("!"),
            Token::Hsh => String::from_str("#"),
        }
    }
}

/// A token with its span in the source: the bytes from `start` up to, not including, `end`.
#[derive(Debug, PartialEq)]
pub struct TokenInfo {
    pub token: Token,
    pub start: usize,
    pub end: usize,
}

/// What a [`TokenInfo`] stands for.
pub struct TokenInfoView {
    pub token: TokenView,
    pub start: usize,
    pub end: usize,
}

impl View for TokenInfo {
    type V = TokenInfoView;

    open spec fn view(&self) -> TokenInfoView {
        TokenInfoView { token: self.token@, start: self.start, end: self.end }
    }
}

impl DeepView for TokenInfo {
    type V = TokenInfoView;

    open spec fn deep_view(&self) -> TokenInfoView {
        self@
    }
}

impl Clone for TokenInfo {
    fn clone(&self) -> (r: Self)
        ensures
            r@ == self@,
    {
        TokenInfo { token: self.token.clone(), start: self.start, end: self.end }
    }
}

impl TokenInfo {
    /// A token with its span.
    pub fn new(start: usize, end: usize, token: Token) -> (r: Self)
        ensures
            r == (TokenInfo { token, start, end }),
    {
        Self { token, start, end }
    }

    /// A token that spans from the first of `chars` to the last.
    pub fn from_chars(chars: &Vec<Char>, token: Token) -> (r: Self)
        requires
            chars.len() > 0,
        ensures
            r == (TokenInfo { token, start: chars[0].n, end: chars[chars.len() - 1].n }),
    {
        let first = &chars[0];
        let last = &chars[chars.len() - 1];
        Self { token, start: first.n, end: last.n }
    }
}

/// Where and why the tokenizer gave up.
#[derive(Debug, PartialEq)]
pub struct ErrorInfo {
    pub start: usize,
    pub end: usize,
    pub msg: Option<String>,
}

/// What an [`ErrorInfo`] stands for.
pub struct ErrorInfoView {
    pub start: usize,
    pub end: usize,
    pub msg: Option<Seq<char>>,
}

impl View for ErrorInfo {
    type V = ErrorInfoView;

    open spec fn view(&self) -> ErrorInfoView {
        ErrorInfoView { start: self.start, end: self.end, msg: self.msg.deep_view() }
    }
}

impl Clone for ErrorInfo {
    fn clone(&self) -> (r: Self)
        ensures
            r@ == self@,
    {
        ErrorInfo {
            start: self.start,
            end: self.end,
            msg: match &self.msg {
                Some(text) => Some(text.clone()),
                None => None,
            },
        }
    }
}

/// A failure of the tokenizer.
#[derive(Debug, PartialEq)]
pub enum TokenizerError {
    SyntaxError(ErrorInfo),
}

/// What a [`TokenizerError`] stands for.
pub enum TokenizerErrorView {
    SyntaxError(ErrorInfoView),
}

impl View for TokenizerError {
    type V = TokenizerErrorView;

    open spec fn view(&self) -> TokenizerErrorView {
        match self {
            TokenizerError::SyntaxError(info) => TokenizerErrorView::SyntaxError(info@),
        }
    }
}

impl Clone for TokenizerError {
    fn clone(&self) -> (r: Self)
        ensures
            r@ == self@,
    {
        match self {
            TokenizerError::SyntaxError(info) => TokenizerError::SyntaxError(info.clone()),
        }
    }
}

impl TokenizerError {
    /// The code of a tokenizer failure: 201.
    pub fn error_code(&self) -> (r: Code)
        ensures
            r == Code::ErrCode(201),
    {
        Code::ErrCode(
            match self {
                TokenizerError::SyntaxError(..) => 201,
            },
        )
    }

    /// The name of the failure.
    pub fn to_string(&self) -> (r: String)
        ensures
            r@ == "SyntaxError"@,
    {
        match self {
            TokenizerError::SyntaxError(..) => String::from_str("SyntaxError"),
        }
    }
}

/// True for the characters that may start an identifier: the ASCII letters and `_`.
pub open spec fn is_ident_start(c: char) -> bool {
    is_letter(c) || c == '_'
}

/// True for the characters of an identifier: the ASCII letters and digits and `_`.
pub open spec fn is_ident_char(c: char) -> bool {
    is_letter(c) || is_digit(c) || c == '_'
}

/// True for an identifier: a letter or `_`, then letters, digits and `_`.
pub open spec fn is_identifier(s: Seq<char>) -> bool {
    &&& s.len() > 0
    &&& is_ident_start(s[0])
    &&& forall|i: int| 0 <= i < s.len() ==> is_ident_char(#[trigger] s[i])
}

pub(crate) fn ident_start(c: char) -> (r: bool)
    ensures
        r == is_ident_start(c),
{
    (c >= 'a' && c <= 'z') || (c >= 'A' && c <= 'Z') || c == '_'
}

pub(crate) fn ident_char(c: char) -> (r: bool)
    ensures
        r == is_ident_char(c),
{
    (c >= 'a' && c <= 'z') || (c >= 'A' && c <= 'Z') || (c >= '0' && c <= '9') || c == '_'
}

/// Tests on the text of tokens.
pub struct TokenCheck;

impl TokenCheck {
    /// True where `s` could be written as an identifier.
    pub fn is_iden(s: &String) -> (r: bool)
        ensures
            r == is_identifier(s@),
    {
        let chars = crate::text::string_chars(s.as_str());
        if chars.len() == 0 {
            return false;
        }
        if !ident_start(chars[0]) {
            return false;
        }
        let mut i: usize = 0;
        while i < chars.len()
            invariant
                i <= chars.len(),
                chars@ == s@,
                is_ident_start(s@[0]),
                forall|k: int| 0 <= k < i ==> is_ident_char(#[trigger] chars@[k]),
            decreases chars.len() - i,
        {
            if !ident_char(chars[i]) {
                return false;
            }
            i += 1;
        }
        true
    }
}

/// The number of positions of a sequence of length `len` from `pos` on.
pub open spec fn room(len: nat, pos: nat) -> nat {
    if pos <= len {
        (len - pos) as nat
    } else {
        0
    }
}

/// The offset just after a character that takes one byte.
pub open spec fn offset_after(c: Char) -> usize {
    if c.n < usize::MAX {
        (c.n + 1) as usize
    } else {
        c.n
    }
}

/// The token that a punctuation character or a line feed makes on its own.
pub open spec fn punctuation(c: char) -> Option<TokenView> {
    if c == '~' {
        Some(TokenView::Til)
    } else if c == ':' {
        Some(TokenView::Col)
    } else if c == '.' {
        Some(TokenView::Dot)
    } else if c == '\n' {
        Some(TokenView::Eol)
    } else if c == '$' {
        Some(TokenView::Dol)
    } else if c == ';' {
        Some(TokenView::Smi)
    } else if c == '?' {
        Some(TokenView::Que)
    } else if c == '=' {
        Some(TokenView::Eql)
    } else if c == '!' {
        Some(TokenView::Not)
    } else if c == '#' {
        Some(TokenView::Hsh)
    } else {
        None
    }
}

/// The characters at the positions from `from` up to, not including, `to`.
pub open spec fn lexeme(chars: Seq<Char>, from: int, to: int) -> Seq<char> {
    Seq::new((to - from) as nat, |k: int| chars[from + k].char)
}

/// The number of identifier characters in a row from `i` on.
pub open spec fn ident_run(chars: Seq<Char>, i: nat) -> nat
    decreases room(chars.len(), i),
{
    if i < chars.len() && is_ident_char(chars[i as int].char) {
        1 + ident_run(chars, i + 1)
    } else {
        0
    }
}

/// The number of digits in a row from `i` on.
pub open spec fn digit_run(chars: Seq<Char>, i: nat) -> nat
    decreases room(chars.len(), i),
{
    if i < chars.len() && is_digit(chars[i as int].char) {
        1 + digit_run(chars, i + 1)
    } else {
        0
    }
}

/// The character that an escape stands for: `\n` is a line feed, `\t` a tab, and any other
/// character stands for itself.
pub open spec fn unescaped(c: char) -> char {
    if c == 'n' {
        '\n'
    } else if c == 't' {
        '\t'
    } else {
        c
    }
}

/// How the scan of a string literal ends.
pub enum StringScan {
    /// The closing quote is at `quote`, and the literal holds `text`.
    Closed { text: Seq<char>, quote: nat },
    /// The source ends after the backslash at `at`.
    CutEscape { at: nat },
    /// The source ends before a closing quote.
    Cut,
}

/// Scans a string literal from `i` on, a position after its opening quote; `text` holds
/// what was read so far.
pub open spec fn scan_string(chars: Seq<Char>, i: nat, text: Seq<char>) -> StringScan
    decreases room(chars.len(), i),
{
    if i >= chars.len() {
        StringScan::Cut
    } else if chars[i as int].char == '"' {
        StringScan::Closed { text, quote: i }
    } else if chars[i as int].char == '\\' {
        if i + 1 < chars.len() {
            scan_string(chars, i + 2, text.push(unescaped(chars[i as int + 1].char)))
        } else {
            StringScan::CutEscape { at: i }
        }
    } else {
        scan_string(chars, i + 1, text.push(chars[i as int].char))
    }
}

/// The position of the first `]` from `i` on, if there is one.
pub open spec fn comment_end(chars: Seq<Char>, i: nat) -> Option<nat>
    decreases room(chars.len(), i),
{
    if i >= chars.len() {
        None
    } else if chars[i as int].char == ']' {
        Some(i)
    } else {
        comment_end(chars, i + 1)
    }
}

/// What the tokenizer finds at one position.
pub enum Lexed {
    /// A token, and the number of characters that it takes after its first.
    Token(TokenInfoView, nat),
    /// A space or a comment, and the number of characters that it takes after its first.
    Skip(nat),
    /// An error.
    Fail(ErrorInfoView),
}

/// An error over the bytes from `start` to `end`.
pub open spec fn syntax_error(start: usize, end: usize, msg: Seq<char>) -> Lexed {
    Lexed::Fail(ErrorInfoView { start, end, msg: Some(msg) })
}

/// What the tokenizer finds at position `i`.
///
/// - A punctuation character or a line feed is a token of its own.
/// - A space is skipped.
/// - A letter or `_` starts an identifier, which runs as far as letters, digits and `_` go.
/// - A digit or `-` starts an integer, which runs as far as digits go. A letter right after
///   it is an error, and so is a numeral that is no `isize`.
/// - `"` starts a string literal, which runs to the next unescaped `"`.
/// - `[` starts a comment, which runs to the next `]` and is skipped.
/// - Any other character is an error.
///
/// The span of a token goes from the offset of its first character to the offset after its
/// last.
pub open spec fn lex_at(chars: Seq<Char>, i: nat) -> Lexed {
    let at = i as int;
    let first = chars[at];
    let c = first.char;
    let start = first.n;
    if punctuation(c) is Some {
        Lexed::Token(
            TokenInfoView { token: punctuation(c)->0, start, end: offset_after(first) },
            0,
        )
    } else if c == ' ' {
        Lexed::Skip(0)
    } else if is_ident_start(c) {
        let more = ident_run(chars, i + 1);
        Lexed::Token(
            TokenInfoView {
                token: TokenView::Idn(lexeme(chars, at, at + 1 + more)),
                start,
                end: offset_after(chars[at + more]),
            },
            more,
        )
    } else if is_digit(c) || c == '-' {
        let more = digit_run(chars, i + 1);
        let stop = at + 1 + more;
        if stop < chars.len() && is_letter(chars[stop].char) {
            syntax_error(start, chars[stop].n, "Invalid number literal"@)
        } else {
            match parse_int(lexeme(chars, at, stop)) {
                Some(n) => Lexed::Token(
                    TokenInfoView {
                        token: TokenView::Int(n),
                        start,
                        end: offset_after(chars[at + more]),
                    },
                    more,
                ),
                None => syntax_error(start, offset_after(chars[at + more]), "Invalid isize"@),
            }
        }
    } else if c == '"' {
        match scan_string(chars, i + 1, Seq::empty()) {
            StringScan::Closed { text, quote } => Lexed::Token(
                TokenInfoView {
                    token: TokenView::Str(text),
                    start,
                    end: offset_after(chars[quote as int]),
                },
                (quote - i) as nat,
            ),
            StringScan::CutEscape { at: cut } => syntax_error(
                chars[cut as int].n,
                chars[cut as int].n,
                "EOF while scanning for the escape sequence"@,
            ),
            StringScan::Cut => syntax_error(
                start,
                start,
                "EOF while scanning for the string literal"@,
            ),
        }
    } else if c == '[' {
        match comment_end(chars, i + 1) {
            Some(close) => Lexed::Skip((close - i) as nat),
            None => syntax_error(start, start, "EOF while scanning for the comment literal"@),
        }
    } else {
        syntax_error(start, start, "Invalid character"@)
    }
}

/// The tokens of `chars` from position `i` on, after the tokens `done`.
pub open spec fn lex_from(chars: Seq<Char>, i: nat, done: Seq<TokenInfoView>) -> Result<
    Seq<TokenInfoView>,
    TokenizerErrorView,
>
    decreases room(chars.len(), i),
{
    if i >= chars.len() {
        Ok(done)
    } else {
        match lex_at(chars, i) {
            Lexed::Token(t, more) => lex_from(chars, i + 1 + more, done.push(t)),
            Lexed::Skip(more) => lex_from(chars, i + 1 + more, done),
            Lexed::Fail(e) => Err(TokenizerErrorView::SyntaxError(e)),
        }
    }
}

/// The tokens of a positioned character sequence, or the first error in it.
pub open spec fn lexed(chars: Seq<Char>) -> Result<Seq<TokenInfoView>, TokenizerErrorView> {
    lex_from(chars, 0, Seq::empty())
}

/// The view of what [`tokenize`] gives.
pub open spec fn tokens_view(r: Result<Vec<TokenInfo>, TokenizerError>) -> Result<
    Seq<TokenInfoView>,
    TokenizerErrorView,
> {
    match r {
        Ok(tokens) => Ok(tokens.deep_view()),
        Err(e) => Err(e@),
    }
}

fn after(c: &Char) -> (r: usize)
    ensures
        r == offset_after(*c),
{
    if c.n < usize::MAX {
        c.n + 1
    } else {
        c.n
    }
}

fn punct(c: char) -> (r: Option<Token>)
    ensures
        r.is_some() == punctuation(c).is_some(),
        r matches Some(t) ==> punctuation(c) == Some(t@),
{
    if c == '~' {
        Some(Token::Til)
    } else if c == ':' {
        Some(Token::Col)
    } else if c == '.' {
        Some(Token::Dot)
    } else if c == '\n' {
        Some(Token::Eol)
    } else if c == '$' {
        Some(Token::Dol)
    } else if c == ';' {
        Some(Token::Smi)
    } else if c == '?' {
        Some(Token::Que)
    } else if c == '=' {
        Some(Token::Eql)
    } else if c == '!' {
        Some(Token::Not)
    } else if c == '#' {
        Some(Token::Hsh)
    } else {
        None
    }
}

fn failed(start: usize, end: usize, msg: &str) -> (r: TokenizerError)
    ensures
        syntax_error(start, end, msg@) == Lexed::Fail(r@->0),
{
    TokenizerError::SyntaxError(ErrorInfo { start, end, msg: Some(String::from_str(msg)) })
}

fn ident_stop(chars: &Vec<Char>, from: usize) -> (stop: usize)
    requires
        from <= chars.len(),
    ensures
        from <= stop <= chars.len(),
        stop - from == ident_run(chars@, from as nat),
{
    let mut k: usize = from;
    while k < chars.len() && ident_char(chars[k].char)
        invariant
            from <= k <= chars.len(),
            ident_run(chars@, from as nat) == (k - from) + ident_run(chars@, k as nat),
        decreases chars.len() - k,
    {
        k += 1;
    }
    k
}

fn digit_stop(chars: &Vec<Char>, from: usize) -> (stop: usize)
    requires
        from <= chars.len(),
    ensures
        from <= stop <= chars.len(),
        stop - from == digit_run(chars@, from as nat),
{
    let mut k: usize = from;
    while k < chars.len() && chars[k].char >= '0' && chars[k].char <= '9'
        invariant
            from <= k <= chars.len(),
            digit_run(chars@, from as nat) == (k - from) + digit_run(chars@, k as nat),
        decreases chars.len() - k,
    {
        k += 1;
    }
    k
}

fn lexeme_chars(chars: &Vec<Char>, from: usize, to: usize) -> (r: Vec<char>)
    requires
        from <= to <= chars.len(),
    ensures
        r@ == lexeme(chars@, from as int, to as int),
{
    let mut out: Vec<char> = Vec::new();
    let mut k: usize = from;
    while k < to
        invariant
            from <= k <= to <= chars.len(),
            out@ == lexeme(chars@, from as int, k as int),
        decreases to - k,
    {
        out.push(chars[k].char);
        assert(out@ =~= lexeme(chars@, from as int, k + 1));
        k += 1;
    }
    out
}

fn comment_stop(chars: &Vec<Char>, from: usize) -> (r: Option<usize>)
    requires
        from <= chars.len(),
    ensures
        match r {
            Some(close) => from <= close < chars.len() && comment_end(chars@, from as nat)
                == Some(close as nat),
            None => comment_end(chars@, from as nat) is None,
        },
{
    let mut k: usize = from;
    while k < chars.len()
        invariant
            from <= k <= chars.len(),
            comment_end(chars@, from as nat) == comment_end(chars@, k as nat),
        decreases chars.len() - k,
    {
        if chars[k].char == ']' {
            return Some(k);
        }
        k += 1;
    }
    None
}

/// How the scan of a string literal ended.
enum Scanned {
    Closed(String, usize),
    CutEscape(usize),
    Cut,
}

fn read_string(chars: &Vec<Char>, from: usize) -> (r: Scanned)
    requires
        from <= chars.len(),
    ensures
        match r {
            Scanned::Closed(text, quote) => from <= quote < chars.len() && scan_string(
                chars@,
                from as nat,
                Seq::empty(),
            ) == (StringScan::Closed { text: text@, quote: quote as nat }),
            Scanned::CutEscape(at) => from <= at < chars.len() && scan_string(
                chars@,
                from as nat,
                Seq::empty(),
            ) == (StringScan::CutEscape { at: at as nat }),
            Scanned::Cut => scan_string(chars@, from as nat, Seq::empty()) == StringScan::Cut,
        },
{
    let mut text = String::new();
    let mut k: usize = from;
    while k < chars.len()
        invariant
            from <= k <= chars.len(),
            scan_string(chars@, from as nat, Seq::empty()) == scan_string(
                chars@,
                k as nat,
                text@,
            ),
        decreases chars.len() - k,
    {
        let c = chars[k].char;
        if c == '"' {
            return Scanned::Closed(text, k);
        } else if c == '\\' {
            if chars.len() - k < 2 {
                return Scanned::CutEscape(k);
            }
            let e = chars[k + 1].char;
            let plain = if e == 'n' {
                '\n'
            } else if e == 't' {
                '\t'
            } else {
                e
            };
            text.push(plain);
            k += 2;
        } else {
            text.push(c);
            k += 1;
        }
    }
    Scanned::Cut
}

/// Turns a positioned character sequence into tokens, or says where it is no token.
pub fn tokenize(chars: Vec<Char>) -> (r: Result<Vec<TokenInfo>, TokenizerError>)
    ensures
        tokens_view(r) == lexed(chars@),
{
    let mut tokens: Vec<TokenInfo> = Vec::new();
    let mut i: usize = 0;
    assert(tokens.deep_view() =~= Seq::<TokenInfoView>::empty());
    while i < chars.len()
        invariant
            i <= chars.len(),
            lexed(chars@) == lex_from(chars@, i as nat, tokens.deep_view()),
        decreases chars.len() - i,
    {
        let ghost done = tokens.deep_view();
        let first = chars[i];
        let c = first.char;
        let start = first.n;
        match punct(c) {
            Some(token) => {
                let ghost t = TokenInfoView { token: token@, start, end: offset_after(first) };
                tokens.push(TokenInfo::new(start, after(&first), token));
                assert(tokens.deep_view() =~= done.push(t));
                i += 1;
            },
            None => {
                if c == ' ' {
                    i += 1;
                } else if ident_start(c) {
                    let stop = ident_stop(&chars, i + 1);
                    let name = chars_to_string(&lexeme_chars(&chars, i, stop), 0, stop - i);
                    let last = chars[stop - 1];
                    let ghost t = TokenInfoView {
                        token: TokenView::Idn(name@),
                        start,
                        end: offset_after(last),
                    };
                    assert(name@ =~= lexeme(chars@, i as int, stop as int));
                    tokens.push(TokenInfo::new(start, after(&last), Token::Idn(name)));
                    assert(tokens.deep_view() =~= done.push(t));
                    i = stop;
                } else if (c >= '0' && c <= '9') || c == '-' {
                    let stop = digit_stop(&chars, i + 1);
                    if stop < chars.len() {
                        let l = chars[stop].char;
                        if (l >= 'a' && l <= 'z') || (l >= 'A' && l <= 'Z') {
                            return Err(failed(start, chars[stop].n, "Invalid number literal"));
                        }
                    }
                    let last = chars[stop - 1];
                    match parse_chars(&lexeme_chars(&chars, i, stop)) {
                        Some(n) => {
                            let ghost t = TokenInfoView {
                                token: TokenView::Int(n),
                                start,
                                end: offset_after(last),
                            };
                            tokens.push(TokenInfo::new(start, after(&last), Token::Int(n)));
                            assert(tokens.deep_view() =~= done.push(t));
                            i = stop;
                        },
                        None => {
                            return Err(failed(start, after(&last), "Invalid isize"));
                        },
                    }
                } else if c == '"' {
                    match read_string(&chars, i + 1) {
                        Scanned::Closed(text, quote) => {
                            let close = chars[quote];
                            let ghost t = TokenInfoView {
                                token: TokenView::Str(text@),
                                start,
                                end: offset_after(close),
                            };
                            tokens.push(TokenInfo::new(start, after(&close), Token::Str(text)));
                            assert(tokens.deep_view() =~= done.push(t));
                            i = quote + 1;
                        },
                        Scanned::CutEscape(at) => {
                            return Err(
                                failed(
                                    chars[at].n,
                                    chars[at].n,
                                    "EOF while scanning for the escape sequence",
                                ),
                            );
                        },
                        Scanned::Cut => {
                            return Err(
                                failed(start, start, "EOF while scanning for the string literal"),
                            );
                        },
                    }
                } else if c == '[' {
                    match comment_stop(&chars, i + 1) {
                        Some(close) => {
                            i = close + 1;
                        },
                        None => {
                            return Err(
                                failed(start, start, "EOF while scanning for the comment literal"),
                            );
                        },
                    }
                } else {
                    return Err(failed(start, start, "Invalid character"));
                }
            },
        }
    }
    Ok(tokens)
}

} // verus!

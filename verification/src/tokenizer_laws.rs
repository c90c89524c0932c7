//! What holds of every token list that the tokenizer gives.

use vstd::prelude::*;
use crate::scanner::{byte_len, lemma_byte_len_concat, positioned, utf8_width, Char};
use crate::tokenizer::{
    comment_end, digit_run, ident_run, is_ident_char, is_ident_start, lex_at, lex_from, lexed,
    offset_after, punctuation, room, scan_string, Lexed, StringScan, TokenInfoView,
    TokenizerErrorView,
};
use crate::text::is_digit;

verus! {

/// True where the characters at the positions from `from` up to, not including, `to` are
/// spaces and whole comments, each comment running from a `[` to the first `]` after it.
pub open spec fn is_filler(chars: Seq<Char>, from: nat, to: nat) -> bool
    decreases room(to, from),
{
    if from >= to {
        from == to
    } else if chars[from as int].char == ' ' {
        is_filler(chars, from + 1, to)
    } else if chars[from as int].char == '[' {
        match comment_end(chars, from + 1) {
            Some(close) => from < close < to && is_filler(chars, close + 1, to),
            None => false,
        }
    } else {
        false
    }
}

/// Where the last of some cuts ends: the start of the source where there is none.
pub open spec fn last_end(cuts: Seq<(nat, nat)>) -> nat {
    if cuts.len() == 0 {
        0
    } else {
        cuts.last().1
    }
}

/// True where cut `k` is the place of token `k`: the token was read from the characters at
/// the positions from the cut's start up to, not including, its end; its span starts at the
/// offset of the first of them and ends one byte after the offset of the last, which takes
/// one byte; and between the cut before and this one there is only filler.
pub open spec fn is_cut(
    chars: Seq<Char>,
    tokens: Seq<TokenInfoView>,
    cuts: Seq<(nat, nat)>,
    k: int,
) -> bool {
    let a = cuts[k].0;
    let b = cuts[k].1;
    &&& a < b <= chars.len()
    &&& tokens[k].start == chars[a as int].n
    &&& tokens[k].end == offset_after(chars[b - 1])
    &&& utf8_width(chars[b - 1].char) == 1
    &&& is_filler(chars, last_end(cuts.take(k)), a)
}

/// True where `cuts` place the tokens in the characters before `upto`, in order, with
/// only filler around them.
pub open spec fn covers_upto(
    chars: Seq<Char>,
    tokens: Seq<TokenInfoView>,
    cuts: Seq<(nat, nat)>,
    upto: nat,
) -> bool {
    &&& cuts.len() == tokens.len()
    &&& forall|k: int| 0 <= k < cuts.len() ==> #[trigger] is_cut(chars, tokens, cuts, k)
    &&& is_filler(chars, last_end(cuts), upto)
}

/// True where `cuts` place the tokens in the source: the source is, in order, filler, the
/// characters of the first token, filler, the characters of the second token, and so on to
/// the filler after the last token.
pub open spec fn covers(
    chars: Seq<Char>,
    tokens: Seq<TokenInfoView>,
    cuts: Seq<(nat, nat)>,
) -> bool {
    covers_upto(chars, tokens, cuts, chars.len())
}

proof fn lemma_filler_is_ordered(chars: Seq<Char>, from: nat, to: nat)
    requires
        is_filler(chars, from, to),
    ensures
        from <= to,
{
}

proof fn lemma_filler_joins(chars: Seq<Char>, from: nat, mid: nat, to: nat)
    requires
        is_filler(chars, from, mid),
        is_filler(chars, mid, to),
    ensures
        is_filler(chars, from, to),
    decreases room(mid, from),
{
    lemma_filler_is_ordered(chars, mid, to);
    if from < mid {
        if chars[from as int].char == ' ' {
            lemma_filler_joins(chars, from + 1, mid, to);
        } else {
            let close = comment_end(chars, from + 1)->0;
            lemma_filler_joins(chars, close + 1, mid, to);
        }
    }
}

proof fn lemma_ident_run(chars: Seq<Char>, i: nat)
    requires
        i <= chars.len(),
    ensures
        i + ident_run(chars, i) <= chars.len(),
        forall|k: int| i <= k < i + ident_run(chars, i) ==> is_ident_char(#[trigger] chars[k].char),
    decreases room(chars.len(), i),
{
    if i < chars.len() && is_ident_char(chars[i as int].char) {
        lemma_ident_run(chars, i + 1);
    }
}

proof fn lemma_digit_run(chars: Seq<Char>, i: nat)
    requires
        i <= chars.len(),
    ensures
        i + digit_run(chars, i) <= chars.len(),
        forall|k: int| i <= k < i + digit_run(chars, i) ==> is_digit(#[trigger] chars[k].char),
    decreases room(chars.len(), i),
{
    if i < chars.len() && is_digit(chars[i as int].char) {
        lemma_digit_run(chars, i + 1);
    }
}

proof fn lemma_closing_quote(chars: Seq<Char>, i: nat, text: Seq<char>)
    ensures
        scan_string(chars, i, text) matches StringScan::Closed { quote, .. } ==> i <= quote
            < chars.len() && chars[quote as int].char == '"',
    decreases room(chars.len(), i),
{
    if i < chars.len() && chars[i as int].char != '"' {
        if chars[i as int].char == '\\' {
            if i + 1 < chars.len() {
                lemma_closing_quote(chars, i + 2, text.push(crate::tokenizer::unescaped(chars[i as int + 1].char)));
            }
        } else {
            lemma_closing_quote(chars, i + 1, text.push(chars[i as int].char));
        }
    }
}

proof fn lemma_closing_bracket(chars: Seq<Char>, i: nat)
    ensures
        comment_end(chars, i) matches Some(close) ==> i <= close < chars.len()
            && chars[close as int].char == ']',
    decreases room(chars.len(), i),
{
    if i < chars.len() && chars[i as int].char != ']' {
        lemma_closing_bracket(chars, i + 1);
    }
}

/// What a token found at position `i` is made of: it ends within the source, its span goes
/// from the offset of its first character to one byte after the offset of its last, and its
/// last character takes one byte.
proof fn lemma_token_at(chars: Seq<Char>, i: nat)
    requires
        i < chars.len(),
    ensures
        lex_at(chars, i) matches Lexed::Token(t, more) ==> {
            &&& i + more < chars.len()
            &&& t.start == chars[i as int].n
            &&& t.end == offset_after(chars[i as int + more])
            &&& utf8_width(chars[i as int + more].char) == 1
        },
        lex_at(chars, i) matches Lexed::Skip(more) ==> is_filler(chars, i, i + 1 + more),
{
    let c = chars[i as int].char;
    lemma_ident_run(chars, i + 1);
    lemma_digit_run(chars, i + 1);
    lemma_closing_quote(chars, i + 1, Seq::empty());
    lemma_closing_bracket(chars, i + 1);
    if punctuation(c) is Some {
    } else if c == ' ' {
        assert(is_filler(chars, i + 1, i + 1));
    } else if is_ident_start(c) {
        let more = ident_run(chars, i + 1);
        if more > 0 {
            assert(is_ident_char(chars[i as int + more].char));
        }
    } else if is_digit(c) || c == '-' {
        let more = digit_run(chars, i + 1);
        if more > 0 {
            assert(is_digit(chars[i as int + more].char));
        }
    } else if c == '"' {
    } else if c == '[' {
        match comment_end(chars, i + 1) {
            Some(close) => {
                assert(is_filler(chars, close + 1, close + 1));
            },
            None => {},
        }
    }
}

proof fn lemma_cover_from(
    chars: Seq<Char>,
    i: nat,
    done: Seq<TokenInfoView>,
    cuts: Seq<(nat, nat)>,
    tokens: Seq<TokenInfoView>,
) -> (all: Seq<(nat, nat)>)
    requires
        i <= chars.len(),
        covers_upto(chars, done, cuts, i),
        lex_from(chars, i, done) == Ok::<Seq<TokenInfoView>, TokenizerErrorView>(tokens),
    ensures
        covers(chars, tokens, all),
    decreases room(chars.len(), i),
{
    if i >= chars.len() {
        cuts
    } else {
        lemma_token_at(chars, i);
        match lex_at(chars, i) {
            Lexed::Token(t, more) => {
                let next = i + 1 + more;
                let grown = cuts.push((i, next));
                let found = done.push(t);
                assert forall|k: int| 0 <= k < grown.len() implies #[trigger] is_cut(
                    chars,
                    found,
                    grown,
                    k,
                ) by {
                    if k < cuts.len() {
                        assert(is_cut(chars, done, cuts, k));
                        assert(grown.take(k) =~= cuts.take(k));
                    } else {
                        assert(grown.take(k) =~= cuts);
                    }
                }
                assert(is_filler(chars, next, next));
                lemma_cover_from(chars, next, found, grown, tokens)
            },
            Lexed::Skip(more) => {
                lemma_filler_joins(chars, last_end(cuts), i, i + 1 + more);
                lemma_filler_is_ordered(chars, i, i + 1 + more);
                lemma_closing_bracket(chars, i + 1);
                lemma_cover_from(chars, i + 1 + more, done, cuts, tokens)
            },
            Lexed::Fail(_) => cuts,
        }
    }
}

/// The tokens of a source cover it up to spaces and comments: there are cuts that place
/// every token, in order, with only filler before, between and after them.
pub proof fn lemma_tokens_cover_source(chars: Seq<Char>, tokens: Seq<TokenInfoView>) -> (cuts: Seq<
    (nat, nat),
>)
    requires
        lexed(chars) == Ok::<Seq<TokenInfoView>, TokenizerErrorView>(tokens),
    ensures
        covers(chars, tokens, cuts),
{
    let none = Seq::<(nat, nat)>::empty();
    assert(is_filler(chars, 0, 0));
    lemma_cover_from(chars, 0, Seq::empty(), none, tokens)
}

/// The offset of a character of a source is the number of bytes before it, and the offsets
/// grow with the positions.
proof fn lemma_offsets_grow(source: Seq<char>, i: int, j: int)
    requires
        0 <= i <= j <= source.len(),
    ensures
        byte_len(source.take(i)) + (j - i) <= byte_len(source.take(j)),
        i < j && utf8_width(source[j - 1]) == 1 ==> byte_len(source.take(j - 1)) + 1 == byte_len(
            source.take(j),
        ),
    decreases j - i,
{
    if i < j {
        let head = source.take(j - 1);
        let one = seq![source[j - 1]];
        assert(source.take(j) =~= head + one);
        lemma_byte_len_concat(head, one);
        assert(one.drop_first() =~= Seq::<char>::empty());
        assert(byte_len(one) == utf8_width(source[j - 1])) by {
            reveal_with_fuel(byte_len, 2);
        }
        lemma_offsets_grow(source, i, j - 1);
    }
}

/// In a source with its true offsets, the span of every token is the bytes of the
/// characters that it was read from: it starts at the byte of the first and ends at the
/// byte after the last. So every span has a start before its end, the spans come in order
/// without overlap, and between them lie only spaces and comments.
pub proof fn lemma_spans_are_the_bytes_of_the_cuts(
    source: Seq<char>,
    chars: Seq<Char>,
    tokens: Seq<TokenInfoView>,
    cuts: Seq<(nat, nat)>,
)
    requires
        positioned(source, chars),
        byte_len(source) <= usize::MAX,
        covers(chars, tokens, cuts),
    ensures
        forall|k: int|
            0 <= k < tokens.len() ==> {
                &&& (#[trigger] tokens[k]).start == byte_len(source.take(cuts[k].0 as int))
                &&& tokens[k].end == byte_len(source.take(cuts[k].1 as int))
                &&& tokens[k].start < tokens[k].end <= byte_len(source)
            },
        forall|k: int|
            0 < k < tokens.len() ==> tokens[k - 1].end <= (#[trigger] tokens[k]).start,
{
    assert forall|k: int| 0 <= k < tokens.len() implies {
        &&& (#[trigger] tokens[k]).start == byte_len(source.take(cuts[k].0 as int))
        &&& tokens[k].end == byte_len(source.take(cuts[k].1 as int))
        &&& tokens[k].start < tokens[k].end <= byte_len(source)
    } by {
        assert(is_cut(chars, tokens, cuts, k));
        let a = cuts[k].0 as int;
        let b = cuts[k].1 as int;
        lemma_offsets_grow(source, a, b);
        lemma_offsets_grow(source, b, source.len() as int);
        assert(source.take(source.len() as int) =~= source);
    }
    assert forall|k: int| 0 < k < tokens.len() implies tokens[k - 1].end <= (
    #[trigger] tokens[k]).start by {
        assert(is_cut(chars, tokens, cuts, k));
        assert(is_cut(chars, tokens, cuts, k - 1));
        assert(cuts.take(k).last() == cuts[k - 1]);
        let b = cuts[k - 1].1;
        let a = cuts[k].0;
        lemma_filler_is_ordered(chars, b, a);
        lemma_offsets_grow(source, b as int, a as int);
        lemma_offsets_grow(source, cuts[k - 1].0 as int, b as int);
        lemma_offsets_grow(source, b as int, source.len() as int);
        assert(source.take(source.len() as int) =~= source);
    }
}

} // verus!

//! The scanner: characters with their positions in the source.

use vstd::prelude::*;
use vstd::utf8::{encode_scalar, encode_utf8};
use crate::text::string_chars;

verus! {

/// A character of the source with its offset in bytes from the start.
#[derive(Debug, PartialEq, Copy)]
pub struct Char {
    pub char: char,
    pub n: usize,
}

impl Clone for Char {
    fn clone(&self) -> (r: Self)
        ensures
            r == *self,
    {
        Char { char: self.char, n: self.n }
    }
}

/// The number of bytes that a character takes in UTF-8.
pub open spec fn utf8_width(c: char) -> nat {
    if c as u32 <= 0x7F {
        1
    } else if c as u32 <= 0x7FF {
        2
    } else if c as u32 <= 0xFFFF {
        3
    } else {
        4
    }
}

/// The number of bytes that a text takes in UTF-8.
pub open spec fn byte_len(s: Seq<char>) -> nat
    decreases s.len(),
{
    if s.len() == 0 {
        0
    } else {
        utf8_width(s[0]) + byte_len(s.drop_first())
    }
}

/// True where `chars` are the characters of `source`, each with the number of bytes that
/// the characters before it take.
pub open spec fn positioned(source: Seq<char>, chars: Seq<Char>) -> bool {
    &&& chars.len() == source.len()
    &&& forall|i: int|
        0 <= i < chars.len() ==> (#[trigger] chars[i]).char == source[i] && chars[i].n == byte_len(
            source.take(i),
        )
}

/// The characters of positioned characters, without their positions.
pub open spec fn unpositioned(chars: Seq<Char>) -> Seq<char> {
    Seq::new(chars.len(), |i: int| chars[i].char)
}

/// The bytes of a text are as many as `byte_len` says.
pub proof fn lemma_byte_len_is_encoded_len(s: Seq<char>)
    ensures
        byte_len(s) == encode_utf8(s).len(),
    decreases s.len(),
{
    if s.len() > 0 {
        vstd::utf8::char_is_scalar(s[0]);
        assert(encode_scalar(s[0] as u32).len() == utf8_width(s[0]));
        lemma_byte_len_is_encoded_len(s.drop_first());
    }
}

/// The bytes of two texts in a row are the bytes of the one and of the other.
pub proof fn lemma_byte_len_concat(a: Seq<char>, b: Seq<char>)
    ensures
        byte_len(a + b) == byte_len(a) + byte_len(b),
    decreases a.len(),
{
    if a.len() == 0 {
        assert(a + b =~= b);
    } else {
        assert((a + b).drop_first() =~= a.drop_first() + b);
        lemma_byte_len_concat(a.drop_first(), b);
    }
}

fn char_at(chars: &Vec<char>, i: usize) -> (c: char)
    requires
        i < chars.len(),
    ensures
        c == chars[i as int],
{
    chars[i]
}

fn width(c: char) -> (r: usize)
    ensures
        r == utf8_width(c),
{
    let code: u32 = c as u32;
    if code <= 0x7F {
        1
    } else if code <= 0x7FF {
        2
    } else if code <= 0xFFFF {
        3
    } else {
        4
    }
}

impl Char {
    /// A character at an offset.
    pub fn new(_char: char, n: usize) -> (r: Self)
        ensures
            r == (Char { char: _char, n }),
    {
        Self { char: _char, n }
    }

    /// The characters of a source text, each with its offset in bytes.
    pub fn from_source(source: &String) -> (r: Vec<Self>)
        ensures
            positioned(source@, r@),
    {
        let chars = string_chars(source.as_str());
        let total = source.as_str().as_bytes().len();
        proof {
            lemma_byte_len_is_encoded_len(source@);
        }
        let mut out: Vec<Char> = Vec::new();
        let mut n: usize = 0;
        let mut i: usize = 0;
        assert(source@.take(0) =~= Seq::<char>::empty());
        while i < chars.len()
            invariant
                i <= chars.len(),
                chars@ == source@,
                byte_len(source@) == total,
                n == byte_len(source@.take(i as int)),
                positioned(source@.take(i as int), out@),
            decreases chars.len() - i,
        {
            let c = char_at(&chars, i);
            let w = width(c);
            proof {
                let head = source@.take(i as int);
                let next = source@.take(i + 1);
                let tail = source@.skip(i + 1);
                assert(next =~= head + seq![c]);
                assert(source@ =~= next + tail);
                lemma_byte_len_concat(head, seq![c]);
                lemma_byte_len_concat(next, tail);
                assert(seq![c].drop_first() =~= Seq::<char>::empty());
                assert(byte_len(seq![c]) == utf8_width(c)) by {
                    reveal_with_fuel(byte_len, 2);
                }
            }
            let ghost before = out@;
            out.push(Char { char: c, n });
            assert(positioned(source@.take(i + 1), out@)) by {
                assert forall|k: int| 0 <= k < out@.len() implies (#[trigger] out@[k]).char
                    == source@.take(i + 1)[k] && out@[k].n == byte_len(
                    source@.take(i + 1).take(k),
                ) by {
                    assert(source@.take(i + 1).take(k) =~= source@.take(k));
                    if k < i {
                        assert(out@[k] == before[k]);
                        assert(source@.take(i as int).take(k) =~= source@.take(k));
                    }
                }
            }
            n += w;
            i += 1;
        }
        assert(source@.take(chars.len() as int) =~= source@);
        out
    }

    /// The characters of positioned characters, without their positions.
    pub fn extract(chars: &Vec<Char>) -> (r: Vec<char>)
        ensures
            r@ == unpositioned(chars@),
    {
        let mut out: Vec<char> = Vec::new();
        let mut i: usize = 0;
        while i < chars.len()
            invariant
                i <= chars.len(),
                out@ == unpositioned(chars@).take(i as int),
            decreases chars.len() - i,
        {
            out.push(chars[i].char);
            assert(out@ =~= unpositioned(chars@).take(i + 1));
            i += 1;
        }
        assert(unpositioned(chars@).take(chars.len() as int) =~= unpositioned(chars@));
        out
    }
}

} // verus!


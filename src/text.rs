//! Characters and their UTF-8 widths; the two std calls on text that vstd
//! gives no contract.
use vstd::prelude::*;
use vstd::utf8::*;

use crate::lexer_spec::byte_offset;

verus! {

/// Relies on `String::push`: appends the character to the end of the string.
#[verifier::external_body]
pub(crate) fn push_char(s: &mut String, c: char)
    ensures
        final(s)@ == old(s)@.push(c),
{
    s.push(c)
}

/// Relies on `char::from_u32`: `Some` exactly for a Unicode scalar value, holding
/// the character of that value.
#[verifier::external_body]
pub(crate) fn char_from_u32(v: u32) -> (r: Option<char>)
    ensures
        r is Some <==> is_scalar(v),
        r matches Some(c) ==> c as u32 == v,
{
    char::from_u32(v)
}

/// Number of bytes of `c` in UTF-8.
pub fn utf8_width(c: char) -> (r: usize)
    ensures
        r == encode_scalar(c as u32).len(),
{
    proof {
        char_is_scalar(c);
    }
    let u = c as u32;
    if u <= 0x7f {
        1
    } else if u <= 0x7ff {
        2
    } else if u <= 0xffff {
        3
    } else {
        4
    }
}

pub proof fn lemma_encode_concat(a: Seq<char>, b: Seq<char>)
    ensures
        encode_utf8(a + b) == encode_utf8(a) + encode_utf8(b),
    decreases a.len(),
{
    if a.len() == 0 {
        assert(a + b =~= b);
        assert(encode_utf8(a) + encode_utf8(b) =~= encode_utf8(b));
    } else {
        assert((a + b).drop_first() =~= a.drop_first() + b);
        assert((a + b)[0] == a[0]);
        char_is_scalar(a[0]);
        lemma_encode_concat(a.drop_first(), b);
        let h = encode_scalar(a[0] as u32);
        assert(h + (encode_utf8(a.drop_first()) + encode_utf8(b)) =~= (h + encode_utf8(
            a.drop_first(),
        )) + encode_utf8(b));
    }
}

pub proof fn lemma_byte_offset_step(s: Seq<char>, i: int)
    requires
        0 <= i < s.len(),
    ensures
        byte_offset(s, i + 1) == byte_offset(s, i) + encode_scalar(s[i] as u32).len(),
{
    let a = s.subrange(0, i);
    let c = seq![s[i]];
    assert(s.subrange(0, i + 1) =~= a + c);
    lemma_encode_concat(a, c);
    char_is_scalar(s[i]);
    assert(c.drop_first() =~= Seq::<char>::empty());
    assert(encode_utf8(Seq::<char>::empty()) =~= Seq::<u8>::empty());
    assert(encode_utf8(c) == encode_scalar(c[0] as u32) + encode_utf8(c.drop_first()));
    assert(encode_utf8(c) =~= encode_scalar(s[i] as u32));
}

pub proof fn lemma_byte_offset_bound(s: Seq<char>, i: int)
    requires
        0 <= i <= s.len(),
    ensures
        byte_offset(s, i) <= encode_utf8(s).len(),
        byte_offset(s, s.len() as int) == encode_utf8(s).len(),
{
    assert(s =~= s.subrange(0, i) + s.subrange(i, s.len() as int));
    lemma_encode_concat(s.subrange(0, i), s.subrange(i, s.len() as int));
    assert(s.subrange(0, s.len() as int) =~= s);
}

/// Splitting a character sequence at index `i` splits its encoding at `byte_offset(s, i)`.
pub proof fn lemma_encode_split(s: Seq<char>, i: int)
    requires
        0 <= i <= s.len(),
    ensures
        encode_utf8(s) == encode_utf8(s.subrange(0, i)) + encode_utf8(s.subrange(i, s.len() as int)),
        encode_utf8(s).subrange(0, byte_offset(s, i) as int) == encode_utf8(s.subrange(0, i)),
        encode_utf8(s).subrange(byte_offset(s, i) as int, encode_utf8(s).len() as int)
            == encode_utf8(s.subrange(i, s.len() as int)),
{
    assert(s =~= s.subrange(0, i) + s.subrange(i, s.len() as int));
    lemma_encode_concat(s.subrange(0, i), s.subrange(i, s.len() as int));
    let x = encode_utf8(s.subrange(0, i));
    let y = encode_utf8(s.subrange(i, s.len() as int));
    assert((x + y).subrange(0, x.len() as int) =~= x);
    assert((x + y).subrange(x.len() as int, (x + y).len() as int) =~= y);
}

/// Two character sequences with the same encoding are equal.
pub proof fn lemma_encode_injective(a: Seq<char>, b: Seq<char>)
    requires
        encode_utf8(a) == encode_utf8(b),
    ensures
        a == b,
{
    encode_utf8_decode_utf8(a);
    encode_utf8_decode_utf8(b);
}

/// The byte offset of every character index is a character boundary of the encoding.
pub proof fn lemma_char_boundary(s: Seq<char>, i: int)
    requires
        0 <= i <= s.len(),
    ensures
        is_char_boundary(encode_utf8(s), byte_offset(s, i) as int),
    decreases s.len(),
{
    encode_utf8_valid_utf8(s);
    if i == 0 {
        assert(s.subrange(0, 0) =~= Seq::<char>::empty());
        assert(encode_utf8(Seq::<char>::empty()) =~= Seq::<u8>::empty());
    } else {
        let bytes = encode_utf8(s);
        let t = s.drop_first();
        encode_utf8_first_scalar(s);
        assert(pop_first_scalar(bytes) =~= encode_utf8(t));
        lemma_char_boundary(t, i - 1);
        let c = seq![s[0]];
        assert(s.subrange(0, i) =~= c + t.subrange(0, i - 1));
        lemma_encode_concat(c, t.subrange(0, i - 1));
        char_is_scalar(s[0]);
        assert(c.drop_first() =~= Seq::<char>::empty());
        assert(encode_utf8(Seq::<char>::empty()) =~= Seq::<u8>::empty());
        assert(encode_utf8(c) == encode_scalar(c[0] as u32) + encode_utf8(c.drop_first()));
        assert(encode_utf8(c) =~= encode_scalar(s[0] as u32));
    }
}

/// The part of `src` between character indices `a` and `b`, found at byte offsets `ba` and `bb`.
pub(crate) fn slice_at<'a>(src: &'a str, a: Ghost<int>, b: Ghost<int>, ba: usize, bb: usize) -> (r: &'a str)
    requires
        0 <= a@ <= b@ <= src@.len(),
        ba == byte_offset(src@, a@),
        bb == byte_offset(src@, b@),
    ensures
        r@ == src@.subrange(a@, b@),
{
    let ghost s = src@;
    let ghost n = s.len() as int;
    proof {
        lemma_char_boundary(s, a@);
        lemma_encode_split(s, a@);
    }
    let (_, rest) = src.split_at(ba);
    let ghost u = s.subrange(a@, n);
    proof {
        lemma_encode_injective(rest@, u);
        assert(u.subrange(0, b@ - a@) =~= s.subrange(a@, b@));
        assert(s.subrange(0, b@) =~= s.subrange(0, a@) + s.subrange(a@, b@));
        lemma_encode_concat(s.subrange(0, a@), s.subrange(a@, b@));
        lemma_char_boundary(u, b@ - a@);
        lemma_encode_split(u, b@ - a@);
    }
    let (mid, _) = rest.split_at(bb - ba);
    proof {
        lemma_encode_injective(mid@, s.subrange(a@, b@));
    }
    mid
}

} // verus!

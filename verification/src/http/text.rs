//! Text utilities shared by the protocol layer: comparing string slices,
//! finding and cutting at ASCII separators, and decimal rendering.

use vstd::prelude::*;
use vstd::string::StringSliceAdditionalSpecFns;
use vstd::utf8::*;

verus! {

/// The decimal digit character of a value below ten.
pub open spec fn digit_char(d: nat) -> char
    recommends
        d < 10,
{
    if d == 0 {
        '0'
    } else if d == 1 {
        '1'
    } else if d == 2 {
        '2'
    } else if d == 3 {
        '3'
    } else if d == 4 {
        '4'
    } else if d == 5 {
        '5'
    } else if d == 6 {
        '6'
    } else if d == 7 {
        '7'
    } else if d == 8 {
        '8'
    } else {
        '9'
    }
}

/// The decimal numeral of `n`, most significant digit first, without
/// leading zeros (zero itself is `"0"`).
pub open spec fn decimal(n: nat) -> Seq<char>
    decreases n,
{
    if n < 10 {
        seq![digit_char(n)]
    } else {
        decimal(n / 10).push(digit_char(n % 10))
    }
}

/// The one-character string slice for a decimal digit.
fn digit_str(d: u16) -> (r: &'static str)
    requires
        d < 10,
    ensures
        r@ == seq![digit_char(d as nat)],
{
    proof {
        reveal_strlit("0");
        reveal_strlit("1");
        reveal_strlit("2");
        reveal_strlit("3");
        reveal_strlit("4");
        reveal_strlit("5");
        reveal_strlit("6");
        reveal_strlit("7");
        reveal_strlit("8");
        reveal_strlit("9");
    }
    let r = if d == 0 {
        "0"
    } else if d == 1 {
        "1"
    } else if d == 2 {
        "2"
    } else if d == 3 {
        "3"
    } else if d == 4 {
        "4"
    } else if d == 5 {
        "5"
    } else if d == 6 {
        "6"
    } else if d == 7 {
        "7"
    } else if d == 8 {
        "8"
    } else {
        "9"
    };
    assert(r@ =~= seq![digit_char(d as nat)]);
    r
}

/// Renders `n` as a decimal numeral.
pub fn decimal_string(n: u16) -> (r: String)
    ensures
        r@ == decimal(n as nat),
{
    let mut rest: u16 = n / 10;
    let mut out = String::from_str(digit_str(n % 10));
    while rest > 0
        invariant
            rest > 0 ==> decimal(n as nat) == decimal(rest as nat) + out@,
            rest == 0 ==> out@ == decimal(n as nat),
        decreases rest,
    {
        let d: u16 = rest % 10;
        let next: u16 = rest / 10;
        let ghost low = out@;
        out = String::from_str(digit_str(d)).concat(out.as_str());
        proof {
            if next > 0 {
                assert(decimal(next as nat).push(digit_char(d as nat)) + low =~= decimal(
                    next as nat,
                ) + out@);
            } else {
                assert(decimal(rest as nat) =~= seq![digit_char(d as nat)]);
            }
        }
        rest = next;
    }
    out
}

/// Position of the first character of `t` that belongs to `seps`, or the
/// length of `t` where it holds none.
pub open spec fn first_of(t: Seq<char>, seps: Set<char>) -> int
    decreases t.len(),
{
    if t.len() == 0 || seps.contains(t[0]) {
        0
    } else {
        1 + first_of(t.drop_first(), seps)
    }
}

/// `first_of` is within bounds, nothing before it is a separator, and what
/// stands at it is one.
pub proof fn lemma_first_of(t: Seq<char>, seps: Set<char>)
    ensures
        0 <= first_of(t, seps) <= t.len(),
        forall|k: int| 0 <= k < first_of(t, seps) ==> !seps.contains(#[trigger] t[k]),
        first_of(t, seps) < t.len() ==> seps.contains(t[first_of(t, seps)]),
    decreases t.len(),
{
    if t.len() == 0 || seps.contains(t[0]) {
    } else {
        let rest = t.drop_first();
        lemma_first_of(rest, seps);
        assert forall|k: int| 0 <= k < first_of(t, seps) implies !seps.contains(
            #[trigger] t[k],
        ) by {
            if k > 0 {
                assert(t[k] == rest[k - 1]);
            }
        }
        assert(t[first_of(t, seps)] == rest[first_of(rest, seps)] || first_of(t, seps) >= t.len());
    }
}

/// The first separator is where a separator stands with none before it.
pub proof fn lemma_first_of_is(t: Seq<char>, seps: Set<char>, i: int)
    requires
        0 <= i <= t.len(),
        forall|k: int| 0 <= k < i ==> !seps.contains(#[trigger] t[k]),
        i < t.len() ==> seps.contains(t[i]),
    ensures
        first_of(t, seps) == i,
{
    lemma_first_of(t, seps);
}

/// The UTF-8 encoding of an ASCII character is the one byte of its code.
pub proof fn lemma_encode_ascii(c: char)
    requires
        c <= '\u{7f}',
    ensures
        encode_utf8(seq![c]) == seq![c as u8],
        encode_scalar(c as u32) == seq![c as u8],
{
    let one = seq![c];
    assert(is_ascii_chars(one));
    is_ascii_chars_encode_utf8(one);
    reveal_with_fuel(encode_utf8, 2);
    assert(one.drop_first() =~= Seq::<char>::empty());
    assert(encode_utf8(one) =~= encode_scalar(c as u32));
    assert(encode_utf8(one) =~= seq![c as u8]);
}

/// An ASCII character of a text shows as its own byte in the text's UTF-8
/// encoding.
pub proof fn lemma_ascii_char_is_encoded(t: Seq<char>, k: int)
    requires
        0 <= k < t.len(),
        t[k] <= '\u{7f}',
    ensures
        encode_utf8(t).contains(t[k] as u8),
    decreases t.len(),
{
    let first = encode_scalar(t[0] as u32);
    let rest = t.drop_first();
    if k == 0 {
        lemma_encode_ascii(t[0]);
        assert(encode_utf8(t)[0] == t[0] as u8);
    } else {
        lemma_ascii_char_is_encoded(rest, k - 1);
        let j = choose|j: int|
            0 <= j < encode_utf8(rest).len() && encode_utf8(rest)[j] == rest[k - 1] as u8;
        assert(encode_utf8(t)[first.len() + j] == t[k] as u8);
    }
}

/// Whether two string slices hold the same text.
pub fn str_eq(a: &str, b: &str) -> (r: bool)
    ensures
        r == (a@ == b@),
{
    broadcast use encode_utf8_decode_utf8;

    let x = a.as_bytes();
    let y = b.as_bytes();
    if x.len() != y.len() {
        return false;
    }
    let mut i: usize = 0;
    while i < x.len()
        invariant
            x@.len() == y@.len(),
            0 <= i <= x@.len(),
            forall|k: int| 0 <= k < i ==> x@[k] == y@[k],
            x@ == encode_utf8(a@),
            y@ == encode_utf8(b@),
        decreases x@.len() - i,
    {
        if x[i] != y[i] {
            return false;
        }
        i += 1;
    }
    proof {
        assert(x@ =~= y@);
        assert(decode_utf8(encode_utf8(a@)) == a@);
        assert(decode_utf8(encode_utf8(b@)) == b@);
    }
    true
}

/// Cuts `s` at its first occurrence of one of two ASCII separators: the text
/// before it and the text after it, the separator itself left out. `None`
/// where `s` holds neither.
pub fn split_at_first<'a>(s: &'a str, first: char, second: char) -> (r: Option<
    (&'a str, &'a str),
>)
    requires
        first <= '\u{7f}',
        second <= '\u{7f}',
    ensures
        match r {
            Some((head, tail)) => {
                let i = first_of(s@, set![first, second]);
                &&& 0 <= i < s@.len()
                &&& head@ == s@.subrange(0, i)
                &&& tail@ == s@.subrange(i + 1, s@.len() as int)
            },
            None => first_of(s@, set![first, second]) == s@.len(),
        },
{
    broadcast use {encode_utf8_decode_utf8, encode_utf8_valid_utf8};

    let ghost seps = set![first, second];
    let sep: u8 = first as u8;
    let alt: u8 = second as u8;
    let bytes = s.as_bytes();
    let mut i: usize = 0;
    while i < bytes.len() && bytes[i] != sep && bytes[i] != alt
        invariant
            0 <= i <= bytes@.len(),
            forall|k: int| 0 <= k < i ==> bytes@[k] != sep && bytes@[k] != alt,
        decreases bytes@.len() - i,
    {
        i += 1;
    }
    if i == bytes.len() {
        proof {
            assert forall|k: int| 0 <= k < s@.len() implies !seps.contains(#[trigger] s@[k]) by {
                if seps.contains(s@[k]) {
                    lemma_ascii_char_is_encoded(s@, k);
                }
            }
            lemma_first_of_is(s@, seps, s@.len() as int);
        }
        return None;
    }
    proof {
        is_char_boundary_iff_not_is_continuation_byte(bytes@, i as int);
    }
    let (head, rest) = s.split_at(i);
    proof {
        reveal_with_fuel(is_char_boundary, 2);
        assert(rest.spec_bytes()[0] == bytes@[i as int]);
    }
    let (mark, tail) = rest.split_at(1);
    proof {
        let c = bytes@[i as int] as char;
        decode_utf8_split(bytes@, i as int);
        decode_utf8_split(rest.spec_bytes(), 1);
        lemma_encode_ascii(c);
        assert(mark.spec_bytes() =~= encode_utf8(seq![c]));
        assert(decode_utf8(encode_utf8(mark@)) == mark@);
        assert(decode_utf8(encode_utf8(seq![c])) == seq![c]);
        assert(s@ =~= head@ + seq![c] + tail@);
        assert forall|k: int| 0 <= k < head@.len() implies !seps.contains(#[trigger] s@[k]) by {
            if seps.contains(head@[k]) {
                lemma_ascii_char_is_encoded(head@, k);
            }
        }
        lemma_first_of_is(s@, seps, head@.len() as int);
        assert(head@ =~= s@.subrange(0, head@.len() as int));
        assert(tail@ =~= s@.subrange(head@.len() as int + 1, s@.len() as int));
    }
    Some((head, tail))
}

/// Cuts `s` at its first occurrence of an ASCII separator: the text before
/// it and the text after it, the separator itself left out. `None` where `s`
/// does not hold it.
pub fn split_at_char<'a>(s: &'a str, sep: char) -> (r: Option<(&'a str, &'a str)>)
    requires
        sep <= '\u{7f}',
    ensures
        match r {
            Some((head, tail)) => {
                let i = first_of(s@, set![sep]);
                &&& 0 <= i < s@.len()
                &&& head@ == s@.subrange(0, i)
                &&& tail@ == s@.subrange(i + 1, s@.len() as int)
            },
            None => first_of(s@, set![sep]) == s@.len(),
        },
{
    assert(set![sep, sep] =~= set![sep]);
    split_at_first(s, sep, sep)
}

} // verus!

//! Text primitives shared by the parsers: locating ASCII delimiters in UTF-8
//! text and comparing string slices, specified over character sequences.

use vstd::prelude::*;
use vstd::utf8::*;

verus! {

/// Index of the first occurrence of `a` or `b` in `s`; `s.len()` when neither
/// occurs.
pub open spec fn first_of(s: Seq<char>, a: char, b: char) -> int
    decreases s.len(),
{
    if s.len() == 0 {
        0
    } else if s[0] == a || s[0] == b {
        0
    } else {
        1 + first_of(s.drop_first(), a, b)
    }
}

/// `s` cut at the first occurrence of `a` or `b`: the text before the
/// delimiter and the text after it. `None` when `s` holds neither character.
pub open spec fn split_at_either(s: Seq<char>, a: char, b: char) -> Option<
    (Seq<char>, Seq<char>),
> {
    let k: int = first_of(s, a, b);
    if k < s.len() {
        Some((s.subrange(0, k), s.subrange(k + 1, s.len() as int)))
    } else {
        None
    }
}

/// `s` cut at the first occurrence of `c`.
pub open spec fn split_at(s: Seq<char>, c: char) -> Option<(Seq<char>, Seq<char>)> {
    split_at_either(s, c, c)
}

/// `first_of` stays within the sequence, nothing before it is a delimiter,
/// and where it is an index, a delimiter stands there.
pub proof fn lemma_first_of(s: Seq<char>, a: char, b: char)
    ensures
        0 <= first_of(s, a, b) <= s.len(),
        forall|j: int| 0 <= j < first_of(s, a, b) ==> s[j] != a && s[j] != b,
        first_of(s, a, b) < s.len() ==> s[first_of(s, a, b)] == a || s[first_of(s, a, b)] == b,
    decreases s.len(),
{
    if s.len() != 0 && s[0] != a && s[0] != b {
        let t = s.drop_first();
        lemma_first_of(t, a, b);
        assert forall|j: int| 0 <= j < first_of(s, a, b) implies s[j] != a && s[j] != b by {
            if j > 0 {
                assert(s[j] == t[j - 1]);
            }
        }
    }
}

/// An index that holds a delimiter and has none before it is `first_of`.
pub proof fn lemma_first_of_is(s: Seq<char>, a: char, b: char, k: int)
    requires
        0 <= k <= s.len(),
        forall|j: int| 0 <= j < k ==> s[j] != a && s[j] != b,
        k < s.len() ==> s[k] == a || s[k] == b,
    ensures
        first_of(s, a, b) == k,
{
    lemma_first_of(s, a, b);
}

/// Text is cut at a delimiter that has none before it: what stands before it
/// and what stands after it are the two parts.
pub proof fn lemma_split_at_either_cuts(
    head: Seq<char>,
    d: char,
    tail: Seq<char>,
    a: char,
    b: char,
)
    requires
        forall|j: int| 0 <= j < head.len() ==> head[j] != a && head[j] != b,
        d == a || d == b,
    ensures
        split_at_either(head + seq![d] + tail, a, b) == Some((head, tail)),
{
    let s = head + seq![d] + tail;
    lemma_first_of_is(s, a, b, head.len() as int);
}

/// Text without a delimiter is not cut.
pub proof fn lemma_split_at_either_none(s: Seq<char>, a: char, b: char)
    ensures
        split_at_either(s, a, b) is None <==> forall|j: int|
            0 <= j < s.len() ==> s[j] != a && s[j] != b,
{
    lemma_first_of(s, a, b);
}

/// Text without the character `c` is not cut at `c`.
pub proof fn lemma_split_at_none(s: Seq<char>, c: char)
    ensures
        split_at(s, c) is None <==> forall|j: int| 0 <= j < s.len() ==> s[j] != c,
{
    lemma_split_at_either_none(s, c, c);
}

/// The two parts of a cut text are shorter than the text by the delimiter.
pub proof fn lemma_split_at_shortens(s: Seq<char>, c: char)
    ensures
        split_at(s, c) matches Some((head, tail)) ==> head.len() + 1 + tail.len() == s.len(),
{
    lemma_first_of(s, c, c);
}

/// An ASCII character is encoded as the one byte that is its code.
proof fn lemma_ascii_scalar(c: char)
    requires
        c as u32 <= 0x7f,
    ensures
        encode_scalar(c as u32) == seq![c as u8],
{
    let v: u32 = c as u32;
    assert(v as u8 == leading_byte_width_1(v)) by (bit_vector)
        requires
            v <= 0x7f,
    ;
}

/// An ASCII character of `chars` stands, as its own byte, somewhere in the
/// UTF-8 encoding of `chars`.
proof fn lemma_ascii_char_is_encoded(chars: Seq<char>, k: int)
    requires
        0 <= k < chars.len(),
        chars[k] as u32 <= 0x7f,
    ensures
        exists|j: int|
            0 <= j < encode_utf8(chars).len() && #[trigger] encode_utf8(chars)[j] == chars[k] as u8,
    decreases chars.len(),
{
    let first = encode_scalar(chars[0] as u32);
    let rest = encode_utf8(chars.drop_first());
    if k == 0 {
        lemma_ascii_scalar(chars[0]);
        assert(encode_utf8(chars)[0] == chars[0] as u8);
    } else {
        lemma_ascii_char_is_encoded(chars.drop_first(), k - 1);
        let j: int = choose|j: int| 0 <= j < rest.len() && #[trigger] rest[j] == chars[k] as u8;
        assert(encode_utf8(chars)[first.len() + j] == rest[j]);
    }
}

/// Whether two string slices hold the same text.
pub fn str_eq(x: &str, y: &str) -> (same: bool)
    ensures
        same == (x@ == y@),
{
    let xb = x.as_bytes();
    let yb = y.as_bytes();
    proof {
        encode_utf8_decode_utf8(x@);
        encode_utf8_decode_utf8(y@);
    }
    if xb.len() != yb.len() {
        return false;
    }
    let mut i: usize = 0;
    while i < xb.len()
        invariant
            xb@.len() == yb@.len(),
            i <= xb@.len(),
            xb@ == encode_utf8(x@),
            yb@ == encode_utf8(y@),
            forall|j: int| 0 <= j < i ==> xb@[j] == yb@[j],
        decreases xb@.len() - i,
    {
        if xb[i] != yb[i] {
            return false;
        }
        i += 1;
    }
    assert(xb@ =~= yb@);
    true
}

/// Cuts `text` at the first occurrence of the ASCII delimiter, borrowing both
/// parts from `text`.
pub(crate) fn split_once<'a>(text: &'a str, c: char) -> (parts: Option<(&'a str, &'a str)>)
    requires
        c as u32 <= 0x7f,
    ensures
        match parts {
            Some((head, tail)) => split_at(text@, c) == Some((head@, tail@)),
            None => split_at(text@, c) is None,
        },
{
    split_once_either(text, c, c)
}

/// Cuts `text` at the first occurrence of either ASCII delimiter, borrowing
/// both parts from `text`.
pub(crate) fn split_once_either<'a>(text: &'a str, a: char, b: char) -> (parts: Option<
    (&'a str, &'a str),
>)
    requires
        a as u32 <= 0x7f,
        b as u32 <= 0x7f,
    ensures
        match parts {
            Some((head, tail)) => split_at_either(text@, a, b) == Some((head@, tail@)),
            None => split_at_either(text@, a, b) is None,
        },
{
    let bytes = text.as_bytes();
    let byte_a: u8 = a as u8;
    let byte_b: u8 = b as u8;
    let mut i: usize = 0;
    while i < bytes.len()
        invariant
            a as u32 <= 0x7f,
            b as u32 <= 0x7f,
            byte_a == a as u8,
            byte_b == b as u8,
            i <= bytes@.len(),
            bytes@ == encode_utf8(text@),
            forall|j: int| 0 <= j < i ==> bytes@[j] != byte_a && bytes@[j] != byte_b,
        decreases bytes@.len() - i,
    {
        if bytes[i] == byte_a || bytes[i] == byte_b {
            proof {
                // An ASCII byte continues no character: `i` is a character boundary.
                encode_utf8_valid_utf8(text@);
                is_char_boundary_iff_not_is_continuation_byte(bytes@, i as int);
            }
            let (head, rest) = text.split_at(i);
            let ghost rb = bytes@.subrange(i as int, bytes@.len() as int);
            proof {
                // The text is `head` and then `rest`, which opens with the
                // delimiter as a character of one byte.
                valid_utf8_split(bytes@, i as int);
                decode_utf8_split(bytes@, i as int);
                encode_utf8_decode_utf8(text@);
                encode_utf8_decode_utf8(head@);
                encode_utf8_decode_utf8(rest@);
                reveal_with_fuel(is_char_boundary, 2);
            }
            let (_, tail) = rest.split_at(1);
            proof {
                let c: u8 = rb[0];
                assert((c & 0x7f) as u32 == c as u32) by (bit_vector)
                    requires
                        c <= 0x7f,
                ;
                encode_utf8_decode_utf8(tail@);
                // A delimiter in `head` would stand among the bytes before `i`.
                assert forall|k: int| 0 <= k < head@.len() implies head@[k] != a && head@[k]
                    != b by {
                    if head@[k] == a || head@[k] == b {
                        lemma_ascii_char_is_encoded(head@, k);
                    }
                }
                assert(text@ =~= head@ + seq![c as char] + tail@);
                lemma_split_at_either_cuts(head@, c as char, tail@, a, b);
            }
            return Some((head, tail));
        }
        i += 1;
    }
    proof {
        assert forall|k: int| 0 <= k < text@.len() implies text@[k] != a && text@[k] != b by {
            if text@[k] == a || text@[k] == b {
                lemma_ascii_char_is_encoded(text@, k);
            }
        }
        lemma_split_at_either_none(text@, a, b);
    }
    None
}

/// The character for a decimal digit `d`, `0 <= d < 10`.
pub open spec fn digit(d: int) -> char {
    (0x30 + d) as char
}

/// The decimal numeral of `n`, without leading zeros.
pub open spec fn decimal(n: nat) -> Seq<char>
    decreases n,
{
    if n < 10 {
        seq![digit(n as int)]
    } else {
        decimal(n / 10).push(digit((n % 10) as int))
    }
}

/// The one-character text of a decimal digit.
fn digit_str(d: u16) -> (s: &'static str)
    requires
        d < 10,
    ensures
        s@ == seq![digit(d as int)],
{
    let s = match d {
        0 => "0",
        1 => "1",
        2 => "2",
        3 => "3",
        4 => "4",
        5 => "5",
        6 => "6",
        7 => "7",
        8 => "8",
        _ => "9",
    };
    proof {
        reveal_strlit("0");
        reveal_strlit("1");
        reveal_strlit("2");
        reveal_strlit("3");
        reveal_strlit("4");
        reveal_strlit("5");
        reveal_strlit("6");
        reveal_strlit("7");
        reveal_strlit("8");
        reveal_strlit("9");
    }
    s
}

/// Writes `n` as a decimal numeral.
pub fn decimal_string(n: u16) -> (s: String)
    ensures
        s@ == decimal(n as nat),
    decreases n,
{
    if n < 10 {
        String::from_str(digit_str(n))
    } else {
        let mut s = decimal_string(n / 10);
        s.append(digit_str(n % 10));
        s
    }
}

} // verus!

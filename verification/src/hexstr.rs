//! Lowercase hexadecimal text for byte strings, with a decoder that accepts
//! both cases, exactly as manifest embeddings require.

use vstd::prelude::*;
use vstd::string::*;

verus! {

/// The lowercase hex digit for a nibble.
pub open spec fn hex_digit(n: u8) -> char
    recommends
        n < 16,
{
    if n == 0 {
        '0'
    } else if n == 1 {
        '1'
    } else if n == 2 {
        '2'
    } else if n == 3 {
        '3'
    } else if n == 4 {
        '4'
    } else if n == 5 {
        '5'
    } else if n == 6 {
        '6'
    } else if n == 7 {
        '7'
    } else if n == 8 {
        '8'
    } else if n == 9 {
        '9'
    } else if n == 10 {
        'a'
    } else if n == 11 {
        'b'
    } else if n == 12 {
        'c'
    } else if n == 13 {
        'd'
    } else if n == 14 {
        'e'
    } else {
        'f'
    }
}

/// The lowercase hex text of a byte string: two digits per byte, high nibble
/// first.
pub open spec fn hex_of(bytes: Seq<u8>) -> Seq<char> {
    Seq::new(
        bytes.len() * 2,
        |i: int|
            if i % 2 == 0 {
                hex_digit((bytes[i / 2] / 16) as u8)
            } else {
                hex_digit((bytes[i / 2] % 16) as u8)
            },
    )
}

/// A character that decodes as a hex digit: `0`-`9`, `a`-`f` or `A`-`F`
/// (code points 48-57, 97-102 and 65-70).
pub open spec fn is_hex_digit(c: char) -> bool {
    (48 <= c as int && c as int <= 57) || (97 <= c as int && c as int <= 102) || (65 <= c as int
        && c as int <= 70)
}

/// The value of a hex digit character, either case.
pub open spec fn hex_val(c: char) -> u8
    recommends
        is_hex_digit(c),
{
    if 48 <= c as int && c as int <= 57 {
        (c as int - 48) as u8
    } else if 97 <= c as int && c as int <= 102 {
        (c as int - 97 + 10) as u8
    } else {
        (c as int - 65 + 10) as u8
    }
}

/// Text that decodes to bytes: an even number of characters, all hex digits.
pub open spec fn valid_hex(s: Seq<char>) -> bool {
    s.len() % 2 == 0 && forall|i: int| 0 <= i < s.len() ==> is_hex_digit(#[trigger] s[i])
}

/// The bytes that hex text decodes to.
pub open spec fn hex_bytes(s: Seq<char>) -> Seq<u8>
    recommends
        valid_hex(s),
{
    Seq::new(s.len() / 2, |i: int| (hex_val(s[2 * i]) * 16 + hex_val(s[2 * i + 1])) as u8)
}

/// Each lowercase digit is a hex digit, and decoding inverts it.
pub proof fn lemma_hex_digit_val(n: u8)
    requires
        n < 16,
    ensures
        is_hex_digit(hex_digit(n)),
        hex_val(hex_digit(n)) == n,
{
}

/// Law: decoding the lowercase hex text of any byte string yields that byte
/// string back, and the text is always valid hex of twice the length.
pub proof fn lemma_hex_round_trip(bytes: Seq<u8>)
    ensures
        valid_hex(hex_of(bytes)),
        hex_of(bytes).len() == bytes.len() * 2,
        hex_bytes(hex_of(bytes)) == bytes,
{
    assert forall|i: int| 0 <= i < hex_of(bytes).len() implies is_hex_digit(
        #[trigger] hex_of(bytes)[i],
    ) by {
        if i % 2 == 0 {
            lemma_hex_digit_val((bytes[i / 2] / 16) as u8);
        } else {
            lemma_hex_digit_val((bytes[i / 2] % 16) as u8);
        }
    }
    assert forall|i: int| 0 <= i < bytes.len() implies hex_bytes(hex_of(bytes))[i] == bytes[i] by {
        lemma_hex_digit_val((bytes[i] / 16) as u8);
        lemma_hex_digit_val((bytes[i] % 16) as u8);
    }
    assert(hex_bytes(hex_of(bytes)) =~= bytes);
}

/// The one-character text for a nibble's lowercase hex digit.
fn hex_digit_str(n: u8) -> (r: &'static str)
    requires
        n < 16,
    ensures
        r@ =~= seq![hex_digit(n)],
{
    proof {
        reveal_strlit("0");
        reveal_strlit("1");
        reveal_strlit("2");
        reveal_strlit("3");
        reveal_strlit("4");
        reveal_strlit("5");
        reveal_strlit("6");
        reveal_strlit("7");
        reveal_strlit("8");
        reveal_strlit("9");
        reveal_strlit("a");
        reveal_strlit("b");
        reveal_strlit("c");
        reveal_strlit("d");
        reveal_strlit("e");
        reveal_strlit("f");
    }
    if n == 0 {
        "0"
    } else if n == 1 {
        "1"
    } else if n == 2 {
        "2"
    } else if n == 3 {
        "3"
    } else if n == 4 {
        "4"
    } else if n == 5 {
        "5"
    } else if n == 6 {
        "6"
    } else if n == 7 {
        "7"
    } else if n == 8 {
        "8"
    } else if n == 9 {
        "9"
    } else if n == 10 {
        "a"
    } else if n == 11 {
        "b"
    } else if n == 12 {
        "c"
    } else if n == 13 {
        "d"
    } else if n == 14 {
        "e"
    } else {
        "f"
    }
}

/// Encode bytes as lowercase hex text.
pub fn encode_hex(bytes: &[u8]) -> (r: String)
    ensures
        r@ == hex_of(bytes@),
{
    let mut s = String::new();
    let mut i: usize = 0;
    while i < bytes.len()
        invariant
            i <= bytes@.len(),
            s@ =~= hex_of(bytes@.take(i as int)),
        decreases bytes@.len() - i,
    {
        let b = bytes[i];
        s.append(hex_digit_str(b / 16));
        s.append(hex_digit_str(b % 16));
        i = i + 1;
        proof {
            assert(s@ =~= hex_of(bytes@.take(i as int)));
        }
    }
    proof {
        assert(bytes@.take(bytes@.len() as int) =~= bytes@);
        assert(s@ =~= hex_of(bytes@));
    }
    s
}

/// Decode hex text, either case, into bytes; `None` when the text has odd
/// length or holds a character that is no hex digit.
pub fn decode_hex(s: &str) -> (r: Option<Vec<u8>>)
    ensures
        r is Some <==> valid_hex(s@),
        r matches Some(b) ==> b@ == hex_bytes(s@),
{
    proof {
        vstd::string::is_ascii_spec_bytes(s);
        vstd::utf8::is_ascii_chars_nat_bound(s@);
    }
    if !s.is_ascii() {
        // some character is beyond ASCII, so it is no hex digit
        proof {
            let i = choose|i: int| 0 <= i < s@.len() && !('\0' <= #[trigger] s@[i] <= '\u{7f}');
            assert(!is_hex_digit(s@[i]));
        }
        return None;
    }
    let bytes = s.as_bytes_vec();
    proof {
        assert(forall|j: int| 0 <= j < s@.len() ==> bytes@[j] == (#[trigger] s@[j]) as u8);
    }
    if bytes.len() % 2 != 0 {
        return None;
    }
    let ghost ascii_codes: Seq<u8> = bytes@;
    let mut out: Vec<u8> = Vec::new();
    let mut i: usize = 0;
    while i < bytes.len()
        invariant
            i % 2 == 0,
            i <= bytes@.len(),
            bytes@.len() % 2 == 0,
            bytes@ == ascii_codes,
            bytes@.len() == s@.len(),
            forall|j: int| 0 <= j < s@.len() ==> bytes@[j] == (#[trigger] s@[j]) as u8,
            forall|j: int| 0 <= j < s@.len() ==> ((#[trigger] s@[j]) as nat) < 128,
            forall|j: int| 0 <= j < i ==> is_hex_digit(#[trigger] s@[j]),
            out@ == hex_bytes(s@.take(i as int)),
        decreases bytes@.len() - i,
    {
        let hi = bytes[i];
        let lo = bytes[i + 1];
        proof {
            lemma_hex_digit_char_byte(s@[i as int]);
            lemma_hex_digit_char_byte(s@[i + 1]);
        }
        let hv = match nibble_val(hi) {
            Some(v) => v,
            None => {
                proof {
                    assert(!is_hex_digit(s@[i as int]));
                }
                return None;
            },
        };
        let lv = match nibble_val(lo) {
            Some(v) => v,
            None => {
                proof {
                    assert(!is_hex_digit(s@[i + 1]));
                }
                return None;
            },
        };
        out.push(hv * 16 + lv);
        i = i + 2;
        proof {
            assert(out@ =~= hex_bytes(s@.take(i as int)));
        }
    }
    proof {
        assert(s@.take(s@.len() as int) =~= s@);
        assert(out@ == hex_bytes(s@));
    }
    Some(out)
}

/// An ASCII code that reads as a hex digit.
pub open spec fn is_hex_digit_byte(b: u8) -> bool {
    (48 <= b && b <= 57) || (97 <= b && b <= 102) || (65 <= b && b <= 70)
}

/// The value of an ASCII code read as a hex digit, either case.
pub open spec fn hex_val_byte(b: u8) -> u8
    recommends
        is_hex_digit_byte(b),
{
    if 48 <= b && b <= 57 {
        (b - 48) as u8
    } else if 97 <= b && b <= 102 {
        (b - 97 + 10) as u8
    } else {
        (b - 65 + 10) as u8
    }
}

/// Reading a character below code point 128 as a hex digit agrees with
/// reading its ASCII code.
pub proof fn lemma_hex_digit_char_byte(c: char)
    requires
        (c as nat) < 128,
    ensures
        is_hex_digit_byte(c as u8) == is_hex_digit(c),
        is_hex_digit(c) ==> hex_val_byte(c as u8) == hex_val(c),
{
}

/// The value of one ASCII byte read as a hex digit, either case.
fn nibble_val(b: u8) -> (r: Option<u8>)
    ensures
        r is Some <==> is_hex_digit_byte(b),
        r matches Some(v) ==> v == hex_val_byte(b) && v < 16,
{
    if 48 <= b && b <= 57 {
        Some(b - 48)
    } else if 97 <= b && b <= 102 {
        Some(b - 97 + 10)
    } else if 65 <= b && b <= 70 {
        Some(b - 65 + 10)
    } else {
        None
    }
}

} // verus!

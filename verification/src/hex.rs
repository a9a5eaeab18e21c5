//! Hexadecimal text, the form in which keys and signatures arrive.

use vstd::prelude::*;

verus! {

/// The value of a hexadecimal digit, in either case; `None` for any other
/// byte.
pub open spec fn hex_digit(b: u8) -> Option<u8> {
    if 0x30 <= b <= 0x39 {
        Some((b - 0x30) as u8)
    } else if 0x61 <= b <= 0x66 {
        Some((b - 0x61 + 10) as u8)
    } else if 0x41 <= b <= 0x46 {
        Some((b - 0x41 + 10) as u8)
    } else {
        None
    }
}

/// Whether `text` is hexadecimal: an even number of hexadecimal digits.
pub open spec fn is_hex(text: Seq<u8>) -> bool {
    text.len() % 2 == 0 && forall|i: int| 0 <= i < text.len() ==> hex_digit(#[trigger] text[i]) is Some
}

/// The byte that two hexadecimal digits spell, the high one first.
pub open spec fn hex_pair(high: u8, low: u8) -> u8 {
    (hex_digit(high)->Some_0 * 16 + hex_digit(low)->Some_0) as u8
}

/// The bytes that hexadecimal text spells, and `None` for text that is not
/// hexadecimal.
pub open spec fn hex_decoded(text: Seq<u8>) -> Option<Seq<u8>> {
    if is_hex(text) {
        Some(Seq::new((text.len() / 2) as nat, |i: int| hex_pair(text[2 * i], text[2 * i + 1])))
    } else {
        None
    }
}

/// The mathematical value of bytes that may be missing.
pub open spec fn bytes_view(bytes: Option<Vec<u8>>) -> Option<Seq<u8>> {
    match bytes {
        Some(b) => Some(b@),
        None => None,
    }
}

/// The value of one hexadecimal digit.
fn digit(b: u8) -> (d: Option<u8>)
    ensures
        d == hex_digit(b),
        d is Some ==> d->Some_0 < 16,
{
    if 0x30 <= b && b <= 0x39 {
        Some(b - 0x30)
    } else if 0x61 <= b && b <= 0x66 {
        Some(b - 0x61 + 10)
    } else if 0x41 <= b && b <= 0x46 {
        Some(b - 0x41 + 10)
    } else {
        None
    }
}

/// Decodes hexadecimal text.
pub fn decode_hex(text: &[u8]) -> (out: Option<Vec<u8>>)
    ensures
        bytes_view(out) == hex_decoded(text@),
{
    let n = text.len();
    if n % 2 != 0 {
        return None;
    }
    let mut bytes: Vec<u8> = Vec::new();
    let mut i: usize = 0;
    while i < n / 2
        invariant
            n == text@.len(),
            n % 2 == 0,
            i <= n / 2,
            bytes@.len() == i,
            forall|j: int| 0 <= j < 2 * i ==> hex_digit(#[trigger] text@[j]) is Some,
            forall|j: int|
                0 <= j < i ==> #[trigger] bytes@[j] == hex_pair(text@[2 * j], text@[2 * j + 1]),
        decreases n / 2 - i,
    {
        let high = match digit(text[2 * i]) {
            Some(d) => d,
            None => {
                return None;
            },
        };
        let low = match digit(text[2 * i + 1]) {
            Some(d) => d,
            None => {
                return None;
            },
        };
        bytes.push(high * 16 + low);
        i += 1;
    }
    assert(bytes@ =~= hex_decoded(text@)->Some_0);
    Some(bytes)
}

} // verus!

//! Naming of the output frames: a zero-based frame index becomes a file name
//! of the shape `<prefix><NNNNN>.png`, the index printed in decimal and
//! left-padded with zeros to at least five digits.

use vstd::prelude::*;

verus! {

/// The decimal digits of `n`, most significant first, as ASCII bytes.
pub open spec fn spec_decimal_digits(n: nat) -> Seq<u8>
    decreases n,
{
    if n < 10 {
        seq![(0x30 + n) as u8]
    } else {
        spec_decimal_digits(n / 10).push((0x30 + n % 10) as u8)
    }
}

/// The ASCII bytes of the file name for frame `index`: the decimal digits,
/// left-padded with `0` to at least five, then `.png`.
pub open spec fn spec_frame_name_bytes(index: nat) -> Seq<u8> {
    let digits = spec_decimal_digits(index);
    let padded = if digits.len() >= 5 {
        digits
    } else {
        Seq::new((5 - digits.len()) as nat, |i: int| 0x30u8) + digits
    };
    padded + seq![0x2eu8, 0x70u8, 0x6eu8, 0x67u8]
}

/// The characters that a sequence of ASCII bytes spells.
pub open spec fn ascii_chars(bytes: Seq<u8>) -> Seq<char> {
    bytes.map_values(|b: u8| b as char)
}

/// Every decimal digit byte is an ASCII digit.
pub proof fn lemma_decimal_digits_are_ascii(n: nat)
    ensures
        spec_decimal_digits(n).len() >= 1,
        forall|i: int|
            0 <= i < spec_decimal_digits(n).len() ==> 0x30 <= #[trigger] spec_decimal_digits(n)[i]
                <= 0x39,
    decreases n,
{
    if n >= 10 {
        lemma_decimal_digits_are_ascii(n / 10);
    }
}

/// Appends the decimal digits of `n`, most significant first.
fn push_decimal(out: &mut Vec<u8>, n: usize)
    ensures
        final(out)@ == old(out)@ + spec_decimal_digits(n as nat),
    decreases n,
{
    if n < 10 {
        out.push(0x30 + (n as u8));
        proof {
            assert(out@ =~= old(out)@ + spec_decimal_digits(n as nat));
        }
    } else {
        push_decimal(out, n / 10);
        out.push(0x30 + ((n % 10) as u8));
        proof {
            assert(out@ =~= old(out)@ + spec_decimal_digits(n as nat));
        }
    }
}

/// Relies on `String::from_utf8`: bytes below 128 are ASCII, which is valid
/// UTF-8 and decodes to exactly those characters.
#[verifier::external_body]
fn ascii_to_string(bytes: &Vec<u8>) -> (s: String)
    requires
        forall|i: int| 0 <= i < bytes@.len() ==> bytes@[i] < 128,
    ensures
        s@ == ascii_chars(bytes@),
{
    String::from_utf8(bytes.clone()).unwrap()
}

/// Relies on `String::push_str`: appends the given string slice onto the end
/// of the string.
pub assume_specification [ String::push_str ](s: &mut String, other: &str)
    ensures
        final(s)@ == old(s)@ + other@,
;

/// Builds the name of the output file for frame `index`:
/// `<prefix><NNNNN>.png` with the index zero-padded to at least five digits.
pub fn frame_file_name(prefix: &str, index: usize) -> (name: String)
    ensures
        name@ == prefix@ + ascii_chars(spec_frame_name_bytes(index as nat)),
{
    let mut digits: Vec<u8> = Vec::new();
    push_decimal(&mut digits, index);
    let dlen = digits.len();
    let mut bytes: Vec<u8> = Vec::new();
    let zeros: usize = if dlen >= 5 {
        0
    } else {
        5 - dlen
    };
    let mut j: usize = 0;
    while j < zeros
        invariant
            j <= zeros,
            bytes@ =~= Seq::new(j as nat, |i: int| 0x30u8),
        decreases zeros - j,
    {
        bytes.push(0x30);
        proof {
            assert(bytes@ =~= Seq::new((j + 1) as nat, |i: int| 0x30u8));
        }
        j = j + 1;
    }
    bytes.append(&mut digits);
    bytes.push(0x2e);
    bytes.push(0x70);
    bytes.push(0x6e);
    bytes.push(0x67);
    proof {
        assert(bytes@ =~= spec_frame_name_bytes(index as nat));
        lemma_decimal_digits_are_ascii(index as nat);
        assert(forall|i: int| 0 <= i < bytes@.len() ==> bytes@[i] < 128);
    }
    let tail = ascii_to_string(&bytes);
    let mut name = prefix.to_owned();
    name.push_str(tail.as_str());
    name
}

} // verus!

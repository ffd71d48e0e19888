//! OSC 52 copy: the terminal itself puts text on the user's clipboard.
//! The library builds the control sequence; writing it to the terminal
//! (and the local-tool fallbacks) is the caller's.
use crate::text::{push_char, push_str};
use vstd::prelude::*;
use vstd::string::StringSliceAdditionalSpecFns;

verus! {

/// The standard base64 alphabet: `A`–`Z`, `a`–`z`, `0`–`9`, `+`, `/`
/// for the 6-bit values 0 to 63.
pub open spec fn base64_char(v: int) -> char {
    if v < 26 {
        ('A' as int + v) as char
    } else if v < 52 {
        ('a' as int + (v - 26)) as char
    } else if v < 62 {
        ('0' as int + (v - 52)) as char
    } else if v == 62 {
        '+'
    } else {
        '/'
    }
}

/// The padded standard base64 encoding: each three-byte group becomes
/// the four chars of its 6-bit pieces, high bits first; a last group of
/// one or two bytes is zero-filled and padded with `=` to four chars.
pub open spec fn base64_standard(b: Seq<u8>) -> Seq<char>
    decreases b.len(),
{
    if b.len() == 0 {
        seq![]
    } else if b.len() == 1 {
        let x = b[0] as int;
        seq![base64_char(x / 4), base64_char((x % 4) * 16), '=', '=']
    } else if b.len() == 2 {
        let x = b[0] as int;
        let y = b[1] as int;
        seq![base64_char(x / 4), base64_char((x % 4) * 16 + y / 16), base64_char((y % 16) * 4), '=']
    } else {
        let x = b[0] as int;
        let y = b[1] as int;
        let z = b[2] as int;
        seq![
            base64_char(x / 4),
            base64_char((x % 4) * 16 + y / 16),
            base64_char((y % 16) * 4 + z / 64),
            base64_char(z % 64),
        ] + base64_standard(b.skip(3))
    }
}

/// The padded base64 length of `n` bytes: four chars per started
/// three-byte group.
pub open spec fn base64_len(n: nat) -> nat {
    (n / 3) * 4 + if n % 3 > 0 {
        4nat
    } else {
        0nat
    }
}

/// `base64::engine::general_purpose::STANDARD.encode`: the padded
/// standard-alphabet encoding (`base64_standard`), four chars per
/// started three-byte group. The engine panics when that length does
/// not fit a `usize`.
#[verifier::external_body]
fn base64_encode(bytes: &[u8]) -> (r: String)
    requires
        base64_len(bytes@.len()) <= usize::MAX,
    ensures
        r@ == base64_standard(bytes@),
        r@.len() == base64_len(bytes@.len()),
{
    base64::Engine::encode(&base64::engine::general_purpose::STANDARD, bytes)
}

/// The OSC 52 sequence that copies `text`: `ESC ] 52 ; c ;`, the
/// base64 of its UTF-8 bytes, then `BEL`.
pub open spec fn spec_osc52(text: &str) -> Seq<char> {
    seq!['\x1b', ']', '5', '2', ';', 'c', ';'] + base64_standard(text.spec_bytes()) + seq!['\x07']
}

/// The control sequence that copies `text` to the clipboard.
pub fn osc52_sequence(text: &str) -> (r: String)
    requires
        base64_len(text.spec_bytes().len()) <= usize::MAX,
    ensures
        r@ == spec_osc52(text),
{
    let encoded = base64_encode(text.as_bytes());
    let mut out = String::new();
    push_char(&mut out, '\x1b');
    push_str(&mut out, "]52;c;");
    push_str(&mut out, encoded.as_str());
    push_char(&mut out, '\x07');
    proof {
        reveal_strlit("]52;c;");
    }
    assert(out@ =~= spec_osc52(text));
    out
}

} // verus!

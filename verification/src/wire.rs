//! Hex length prefixes: the `HHHH` convention the protocol uses to frame
//! both outgoing commands and length-prefixed response payloads.

use vstd::prelude::*;
use vstd::utf8::{valid_utf8, decode_utf8};

verus! {

/// Relies on std's `String::from_utf8`: it succeeds exactly on UTF-8 input
/// and decodes it, and on failure the error hands the input back unchanged
/// through `into_bytes`.
#[verifier::external_body]
pub(crate) fn utf8_to_string(bytes: Vec<u8>) -> (r: Result<String, Vec<u8>>)
    ensures
        r matches Ok(s) ==> valid_utf8(bytes@) && s@ == decode_utf8(bytes@),
        r matches Err(b) ==> !valid_utf8(bytes@) && b@ == bytes@,
{
    String::from_utf8(bytes).map_err(|e| e.into_bytes())
}

/// Largest command payload that a four-digit hex prefix can announce.
pub const MAX_COMMAND_LEN: usize = 65535;

/// The ASCII digit encoding one hex nibble, uppercase.
pub open spec fn spec_hex_digit(d: u8) -> u8
    recommends
        d < 16,
{
    if d < 10 {
        (48 + d) as u8
    } else {
        (55 + d) as u8
    }
}

/// The four ASCII bytes of `n` written as zero-padded uppercase hex.
pub open spec fn spec_hex4(n: u16) -> Seq<u8> {
    seq![
        spec_hex_digit((n / 4096 % 16) as u8),
        spec_hex_digit((n / 256 % 16) as u8),
        spec_hex_digit((n / 16 % 16) as u8),
        spec_hex_digit((n % 16) as u8),
    ]
}

/// The nibble value of one ASCII hex digit, either case; `None` off the digits.
pub open spec fn spec_hex_val(b: u8) -> Option<u8> {
    if 48 <= b && b <= 57 {
        Some((b - 48) as u8)
    } else if 65 <= b && b <= 70 {
        Some((b - 55) as u8)
    } else if 97 <= b && b <= 102 {
        Some((b - 87) as u8)
    } else {
        None
    }
}

/// The value of four ASCII hex digits, most significant first; `None` when
/// any of the four bytes is not a hex digit.
pub open spec fn spec_parse_hex4(s: Seq<u8>) -> Option<u16>
    recommends
        s.len() == 4,
{
    if spec_hex_val(s[0]) is Some && spec_hex_val(s[1]) is Some && spec_hex_val(s[2]) is Some
        && spec_hex_val(s[3]) is Some {
        Some(
            (spec_hex_val(s[0]).unwrap() * 4096 + spec_hex_val(s[1]).unwrap() * 256 + spec_hex_val(
                s[2],
            ).unwrap() * 16 + spec_hex_val(s[3]).unwrap()) as u16,
        )
    } else {
        None
    }
}

/// An outgoing frame: the command's byte length as four hex digits, then the
/// command bytes themselves.
pub open spec fn spec_frame(cmd: Seq<u8>) -> Seq<u8>
    recommends
        cmd.len() <= MAX_COMMAND_LEN,
{
    spec_hex4(cmd.len() as u16) + cmd
}

fn hex_digit(d: u8) -> (r: u8)
    requires
        d < 16,
    ensures
        r == spec_hex_digit(d),
{
    if d < 10 {
        48 + d
    } else {
        55 + d
    }
}

fn hex_val(b: u8) -> (r: Option<u8>)
    ensures
        r == spec_hex_val(b),
{
    if 48 <= b && b <= 57 {
        Some(b - 48)
    } else if 65 <= b && b <= 70 {
        Some(b - 55)
    } else if 97 <= b && b <= 102 {
        Some(b - 87)
    } else {
        None
    }
}

/// Writes `n` as four zero-padded uppercase hex digits.
pub fn hex4(n: u16) -> (r: Vec<u8>)
    ensures
        r@ == spec_hex4(n),
{
    let mut r: Vec<u8> = Vec::new();
    r.push(hex_digit((n / 4096 % 16) as u8));
    r.push(hex_digit((n / 256 % 16) as u8));
    r.push(hex_digit((n / 16 % 16) as u8));
    r.push(hex_digit((n % 16) as u8));
    proof {
        assert(r@ =~= spec_hex4(n));
    }
    r
}

/// Reads four ASCII hex digits as an unsigned length.
pub fn parse_hex4(s: &[u8]) -> (r: Option<u16>)
    requires
        s@.len() == 4,
    ensures
        r == spec_parse_hex4(s@),
{
    let v0 = hex_val(s[0]);
    let v1 = hex_val(s[1]);
    let v2 = hex_val(s[2]);
    let v3 = hex_val(s[3]);
    match (v0, v1, v2, v3) {
        (Some(a), Some(b), Some(c), Some(d)) => Some(
            a as u16 * 4096 + b as u16 * 256 + c as u16 * 16 + d as u16,
        ),
        _ => None,
    }
}

proof fn lemma_hex_digit_val(d: u8)
    requires
        d < 16,
    ensures
        spec_hex_val(spec_hex_digit(d)) == Some(d),
{
}

/// Law: a four-digit hex prefix written by `spec_hex4` reads back as the
/// number it was written from.
pub proof fn lemma_hex4_round_trip(n: u16)
    ensures
        spec_parse_hex4(spec_hex4(n)) == Some(n),
{
    lemma_hex_digit_val((n / 4096 % 16) as u8);
    lemma_hex_digit_val((n / 256 % 16) as u8);
    lemma_hex_digit_val((n / 16 % 16) as u8);
    lemma_hex_digit_val((n % 16) as u8);
    assert(n == (n / 4096 % 16) * 4096 + (n / 256 % 16) * 256 + (n / 16 % 16) * 16 + n % 16) by (bit_vector);
}

/// Law: a frame decomposes back into the command it was built from — the
/// four-byte prefix parses to the command's length and the rest is the
/// command itself.
pub proof fn lemma_frame_round_trip(cmd: Seq<u8>)
    requires
        cmd.len() <= MAX_COMMAND_LEN,
    ensures
        spec_parse_hex4(spec_frame(cmd).take(4)) == Some(cmd.len() as u16),
        spec_frame(cmd).skip(4) == cmd,
{
    assert(spec_frame(cmd).take(4) =~= spec_hex4(cmd.len() as u16));
    assert(spec_frame(cmd).skip(4) =~= cmd);
    lemma_hex4_round_trip(cmd.len() as u16);
}

} // verus!

//! The response reader: the staged decoding of one daemon response.
//!
//! A response is a four-byte status banner, then — depending on the banner
//! and on what the caller asked for — an error payload, an output buffer
//! that may itself carry a continuation banner or an embedded failure, and
//! an optional secondary length prefix.  Every stage here is a pure function
//! over the bytes already read; callers that own the socket read the bytes
//! and hand them in.

use vstd::prelude::*;
use vstd::utf8::{valid_utf8, decode_utf8};
use crate::adb::SyncCmd;
use crate::server::{AdbServerError, ErrorModel};
use crate::wire::{spec_parse_hex4, parse_hex4, utf8_to_string};

verus! {

/// Most bytes of an error payload the reader will accept: the capacity of
/// its read buffer.  A longer declared length is honoured only up to here.
pub const ERROR_BODY_CAP: usize = 1024;

/// Whether `s` begins with the four-byte code of `cmd`.
pub open spec fn has_tag(s: Seq<u8>, cmd: SyncCmd) -> bool {
    s.len() >= 4 && s.take(4) == cmd.spec_code()
}

/// What one exchange came to: a payload plus an optional advisory warning,
/// or a failure.
pub enum ExchangeOutcome {
    Success { payload: Seq<u8>, warning: Option<LengthWarning> },
    Failure { err: ErrorModel },
}

/// The advisory mismatch between a declared secondary length and the bytes
/// that actually followed it.  Reported alongside the payload, never as a
/// failure.
#[derive(Debug, Clone, Copy, PartialEq, Eq, Structural)]
pub struct LengthWarning {
    pub declared: u16,
    pub actual: usize,
}

/// Where the reader goes after the banner.
#[derive(Debug, PartialEq, Eq, Structural)]
pub enum BannerStep {
    /// The banner was not `OKAY`: an error payload follows.
    Failed,
    /// The banner was `OKAY` and no output was requested: done, empty payload.
    Empty,
    /// The banner was `OKAY` and output was requested: drain the stream.
    Output,
}

/// The step the reader takes on a four-byte banner.
pub open spec fn spec_banner_step(banner: Seq<u8>, with_output: bool) -> BannerStep {
    if banner != SyncCmd::Okay.spec_code() {
        BannerStep::Failed
    } else if with_output {
        BannerStep::Output
    } else {
        BannerStep::Empty
    }
}

/// The error an error-payload body decodes to: the daemon's message when the
/// body is UTF-8, a decoding failure otherwise.
pub open spec fn spec_decoded_message(body: Seq<u8>) -> ErrorModel {
    if valid_utf8(body) {
        ErrorModel::AdbError { message: decode_utf8(body) }
    } else {
        ErrorModel::DecodingError { raw: body }
    }
}

/// The error a whole non-`OKAY` response decodes to.  `s` is the full
/// response, banner included: four hex digits follow the banner, then that
/// many bytes of message, honoured up to the reader's buffer capacity.
pub open spec fn spec_error_response(s: Seq<u8>) -> ErrorModel
    recommends
        s.len() >= 4,
{
    if s.len() < 8 {
        ErrorModel::DecodingError { raw: s.skip(4) }
    } else {
        match spec_parse_hex4(s.subrange(4, 8)) {
            Option::None => ErrorModel::DecodingError { raw: s.subrange(4, 8) },
            Option::Some(v) => {
                let n = if v <= ERROR_BODY_CAP { v as int } else { ERROR_BODY_CAP as int };
                if s.len() - 8 < n {
                    ErrorModel::DecodingError { raw: s.skip(8) }
                } else {
                    spec_decoded_message(s.subrange(8, 8 + n))
                }
            },
        }
    }
}

/// The failure an embedded `FAIL` inside a nominally successful output
/// decodes to: four hex digits after the tag, then that many bytes of
/// message.
pub open spec fn spec_embedded_failure(s: Seq<u8>) -> ErrorModel
    recommends
        has_tag(s, SyncCmd::Fail),
{
    if s.len() < 8 {
        ErrorModel::DecodingError { raw: s }
    } else {
        match spec_parse_hex4(s.subrange(4, 8)) {
            Option::None => ErrorModel::DecodingError { raw: s.subrange(4, 8) },
            Option::Some(n) => {
                if s.len() - 8 < n {
                    ErrorModel::DecodingError { raw: s.skip(8) }
                } else {
                    spec_decoded_message(s.subrange(8, 8 + n))
                }
            },
        }
    }
}

/// An output buffer with a leading continuation `OKAY` banner stripped.
pub open spec fn spec_strip_banner(out: Seq<u8>) -> Seq<u8> {
    if has_tag(out, SyncCmd::Okay) {
        out.skip(4)
    } else {
        out
    }
}

/// The outcome of splitting a secondary length prefix off an output buffer:
/// fewer than four bytes is a decoding failure, a bad prefix is a decoding
/// failure, and a prefix that disagrees with the remainder's length is only
/// a warning — the remainder is still the payload.
pub open spec fn spec_length_prefixed(s: Seq<u8>) -> ExchangeOutcome {
    if s.len() < 4 {
        ExchangeOutcome::Failure { err: ErrorModel::DecodingError { raw: s } }
    } else {
        match spec_parse_hex4(s.take(4)) {
            Option::None => ExchangeOutcome::Failure {
                err: ErrorModel::DecodingError { raw: s.take(4) },
            },
            Option::Some(n) => ExchangeOutcome::Success {
                payload: s.skip(4),
                warning: if n == s.len() - 4 {
                    Option::None
                } else {
                    Option::Some(LengthWarning { declared: n, actual: (s.len() - 4) as usize })
                },
            },
        }
    }
}

/// The outcome of the output stage: strip a continuation banner, surface an
/// embedded failure, then either split the secondary length prefix or hand
/// the bytes back as they are.
pub open spec fn spec_process_output(out: Seq<u8>, with_length: bool) -> ExchangeOutcome {
    let stripped = spec_strip_banner(out);
    if has_tag(stripped, SyncCmd::Fail) {
        ExchangeOutcome::Failure { err: spec_embedded_failure(stripped) }
    } else if with_length {
        spec_length_prefixed(stripped)
    } else {
        ExchangeOutcome::Success { payload: stripped, warning: Option::None }
    }
}

/// The outcome of one whole exchange, given every byte the daemon sent.
/// A banner other than `OKAY` turns into the decoded error; `OKAY` with no
/// output requested succeeds with an empty payload whatever follows; `OKAY`
/// with output requested hands the rest to the output stage.
pub open spec fn spec_exchange(data: Seq<u8>, with_output: bool, with_length: bool) -> ExchangeOutcome {
    if data.len() < 4 {
        ExchangeOutcome::Failure { err: ErrorModel::DecodingError { raw: data } }
    } else if !has_tag(data, SyncCmd::Okay) {
        ExchangeOutcome::Failure { err: spec_error_response(data) }
    } else if !with_output {
        ExchangeOutcome::Success { payload: Seq::empty(), warning: Option::None }
    } else {
        spec_process_output(data.skip(4), with_length)
    }
}

/// Whether `s` begins with the four-byte code of `cmd`.
pub fn starts_with_tag(s: &[u8], cmd: SyncCmd) -> (r: bool)
    ensures
        r == has_tag(s@, cmd),
{
    if s.len() < 4 {
        return false;
    }
    let code = cmd.code();
    let r = s[0] == code[0] && s[1] == code[1] && s[2] == code[2] && s[3] == code[3];
    proof {
        if r {
            assert(s@.take(4) =~= cmd.spec_code());
        } else {
            assert(s@.take(4) != cmd.spec_code());
        }
    }
    r
}

/// Reads the four-byte banner: not `OKAY` means an error payload follows;
/// `OKAY` terminates at once with an empty payload unless output was
/// requested.
pub fn process_banner(banner: &[u8], with_output: bool) -> (r: BannerStep)
    requires
        banner@.len() == 4,
    ensures
        r == spec_banner_step(banner@, with_output),
{
    if !starts_with_tag(banner, SyncCmd::Okay) {
        proof {
            assert(banner@.take(4) =~= banner@);
        }
        BannerStep::Failed
    } else {
        proof {
            assert(banner@.take(4) =~= banner@);
        }
        if with_output {
            BannerStep::Output
        } else {
            BannerStep::Empty
        }
    }
}

/// Reads the four hex digits that announce an error payload's length, and
/// caps the answer at the reader's buffer capacity.  Bytes that are not hex
/// digits are a decoding failure, never coerced.
pub fn error_body_len(len_bytes: &[u8]) -> (r: Result<usize, AdbServerError>)
    requires
        len_bytes@.len() == 4,
    ensures
        spec_parse_hex4(len_bytes@) matches Some(v) ==> (r matches Ok(n) && n == (if v
            <= ERROR_BODY_CAP {
            v as int
        } else {
            ERROR_BODY_CAP as int
        })),
        spec_parse_hex4(len_bytes@) is None ==> (r matches Err(e) && e@ == (ErrorModel::DecodingError {
            raw: len_bytes@,
        })),
{
    match parse_hex4(len_bytes) {
        Option::Some(v) => {
            let v = v as usize;
            if v <= ERROR_BODY_CAP {
                Ok(v)
            } else {
                Ok(ERROR_BODY_CAP)
            }
        },
        Option::None => Err(AdbServerError::DecodingError(vstd::slice::slice_to_vec(len_bytes))),
    }
}

/// Decodes an error payload's body: the daemon's message when it is UTF-8,
/// a decoding failure otherwise.
pub fn decode_error_message(body: Vec<u8>) -> (r: AdbServerError)
    ensures
        r@ == spec_decoded_message(body@),
{
    match utf8_to_string(body) {
        Ok(s) => AdbServerError::AdbError(s),
        Err(b) => AdbServerError::DecodingError(b),
    }
}

/// The output stage on a fully drained output buffer: strips a leading
/// continuation `OKAY`, turns an embedded `FAIL` into the failure it
/// carries, and, when asked, splits the secondary length prefix off —
/// returning the remainder even when the declared length disagrees, with
/// the disagreement as a warning.
pub fn process_output(output: Vec<u8>, with_length: bool) -> (r: Result<
    (Vec<u8>, Option<LengthWarning>),
    AdbServerError,
>)
    ensures
        spec_process_output(output@, with_length) matches ExchangeOutcome::Success {
            payload,
            warning,
        } ==> (r matches Ok(p) && p.0@ == payload && p.1 == warning),
        spec_process_output(output@, with_length) matches ExchangeOutcome::Failure { err } ==> (
        r matches Err(e) && e@ == err),
{
    let ghost orig = output@;
    let mut output = output;
    if starts_with_tag(output.as_slice(), SyncCmd::Okay) {
        output = output.split_off(4);
    }
    proof {
        assert(output@ == spec_strip_banner(orig));
    }
    if starts_with_tag(output.as_slice(), SyncCmd::Fail) {
        if output.len() < 8 {
            return Err(AdbServerError::DecodingError(output));
        }
        let len_bytes = vstd::slice::slice_subrange(output.as_slice(), 4, 8);
        match parse_hex4(len_bytes) {
            Option::None => {
                return Err(AdbServerError::DecodingError(vstd::slice::slice_to_vec(len_bytes)));
            },
            Option::Some(n) => {
                let n = n as usize;
                if output.len() - 8 < n {
                    let tail = output.split_off(8);
                    return Err(AdbServerError::DecodingError(tail));
                }
                let body = vstd::slice::slice_to_vec(
                    vstd::slice::slice_subrange(output.as_slice(), 8, 8 + n),
                );
                return Err(decode_error_message(body));
            },
        }
    }
    if with_length {
        if output.len() < 4 {
            return Err(AdbServerError::DecodingError(output));
        }
        let rest = output.split_off(4);
        proof {
            assert(output@ =~= spec_strip_banner(orig).take(4));
            assert(rest@ =~= spec_strip_banner(orig).skip(4));
        }
        match parse_hex4(output.as_slice()) {
            Option::None => Err(AdbServerError::DecodingError(output)),
            Option::Some(n) => {
                let actual = rest.len();
                let warning = if n as usize == actual {
                    Option::None
                } else {
                    Option::Some(LengthWarning { declared: n, actual })
                };
                Ok((rest, warning))
            },
        }
    } else {
        Ok((output, Option::None))
    }
}

/// The whole reader on a fully buffered exchange: every byte the daemon
/// sent in, the decoded outcome out.  Callers that read from a socket in
/// stages use the stage functions directly; this function is the reader's
/// reference composition and decodes exactly [`spec_exchange`].  With no
/// stream left to blame, a buffer too short for a stage reads as truncated
/// data: a decoding failure carrying the short remainder.
pub fn decode_exchange(data: &[u8], with_output: bool, with_length: bool) -> (r: Result<
    (Vec<u8>, Option<LengthWarning>),
    AdbServerError,
>)
    ensures
        spec_exchange(data@, with_output, with_length) matches ExchangeOutcome::Success {
            payload,
            warning,
        } ==> (r matches Ok(p) && p.0@ == payload && p.1 == warning),
        spec_exchange(data@, with_output, with_length) matches ExchangeOutcome::Failure { err }
            ==> (r matches Err(e) && e@ == err),
{
    if data.len() < 4 {
        return Err(AdbServerError::DecodingError(vstd::slice::slice_to_vec(data)));
    }
    let banner = vstd::slice::slice_subrange(data, 0, 4);
    proof {
        assert(banner@ =~= data@.take(4));
    }
    match process_banner(banner, with_output) {
        BannerStep::Failed => {
            if data.len() < 8 {
                let tail = vstd::slice::slice_to_vec(
                    vstd::slice::slice_subrange(data, 4, data.len()),
                );
                proof {
                    assert(tail@ =~= data@.skip(4));
                }
                return Err(AdbServerError::DecodingError(tail));
            }
            let len_bytes = vstd::slice::slice_subrange(data, 4, 8);
            let n = match error_body_len(len_bytes) {
                Ok(n) => n,
                Err(e) => {
                    return Err(e);
                },
            };
            if data.len() - 8 < n {
                let tail = vstd::slice::slice_to_vec(
                    vstd::slice::slice_subrange(data, 8, data.len()),
                );
                proof {
                    assert(tail@ =~= data@.skip(8));
                }
                return Err(AdbServerError::DecodingError(tail));
            }
            let body = vstd::slice::slice_to_vec(vstd::slice::slice_subrange(data, 8, 8 + n));
            Err(decode_error_message(body))
        },
        BannerStep::Empty => {
            let empty: Vec<u8> = Vec::new();
            proof {
                assert(empty@ =~= Seq::<u8>::empty());
            }
            Ok((empty, Option::None))
        },
        BannerStep::Output => {
            let rest = vstd::slice::slice_to_vec(vstd::slice::slice_subrange(data, 4, data.len()));
            proof {
                assert(rest@ =~= data@.skip(4));
            }
            process_output(rest, with_length)
        },
    }
}

/// Law: a well-formed failure response — the `FAIL` banner, a hex length
/// that announces the body's exact length, and a UTF-8 body that fits the
/// reader's buffer — decodes to the daemon's error carrying that body,
/// whatever the caller asked for.
pub proof fn lemma_fail_response_reports_error(
    hex: Seq<u8>,
    body: Seq<u8>,
    with_output: bool,
    with_length: bool,
)
    requires
        hex.len() == 4,
        spec_parse_hex4(hex) == Some(body.len() as u16),
        body.len() <= ERROR_BODY_CAP,
        valid_utf8(body),
    ensures
        spec_exchange(SyncCmd::Fail.spec_code() + hex + body, with_output, with_length)
            == (ExchangeOutcome::Failure {
            err: ErrorModel::AdbError { message: decode_utf8(body) },
        }),
{
    let data = SyncCmd::Fail.spec_code() + hex + body;
    assert(data.len() == 8 + body.len());
    assert(data.take(4) =~= SyncCmd::Fail.spec_code());
    assert(data.take(4) != SyncCmd::Okay.spec_code());
    assert(data.subrange(4, 8) =~= hex);
    assert(data.subrange(8, 8 + body.len() as int) =~= body);
}

/// Law: a successful banner with no output requested succeeds with an empty
/// payload, whatever bytes trail the banner.
pub proof fn lemma_okay_without_output_is_empty(data: Seq<u8>, with_length: bool)
    requires
        has_tag(data, SyncCmd::Okay),
    ensures
        spec_exchange(data, false, with_length) == (ExchangeOutcome::Success {
            payload: Seq::<u8>::empty(),
            warning: Option::None,
        }),
{
}

/// Law: a declared secondary length that disagrees with the remainder is
/// only a warning — the remainder is still returned as the payload.
pub proof fn lemma_length_mismatch_is_warning(prefix: Seq<u8>, rest: Seq<u8>, declared: u16)
    requires
        prefix.len() == 4,
        spec_parse_hex4(prefix) == Some(declared),
        declared != rest.len(),
        !has_tag(prefix + rest, SyncCmd::Okay),
        !has_tag(prefix + rest, SyncCmd::Fail),
    ensures
        spec_process_output(prefix + rest, true) == (ExchangeOutcome::Success {
            payload: rest,
            warning: Option::Some(
                LengthWarning { declared, actual: rest.len() as usize },
            ),
        }),
{
    let s = prefix + rest;
    assert(s.take(4) =~= prefix);
    assert(s.skip(4) =~= rest);
}

} // verus!

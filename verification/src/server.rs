//! The server handle: connection parameters for the local daemon, the
//! error taxonomy of one exchange, and command framing.

use vstd::prelude::*;
use vstd::string::StringSliceAdditionalSpecFns;
use vstd::utf8::{valid_utf8, decode_utf8};
use crate::wire::{spec_frame, hex4, utf8_to_string, MAX_COMMAND_LEN};
use crate::device_info::{AdbDeviceInfo, DeviceInfoView, spec_parse_info};
use crate::text::{lines_of, split_lines};

verus! {

/// One failure kind of an exchange with the daemon.
///
/// `ConnectionError` carries the platform's description of a socket failure;
/// `DecodingError` carries the raw bytes that could not be decoded;
/// `AdbError` carries the daemon's own error text.  The remaining variants
/// are reported by the convenience layers around `exec`.
#[derive(Debug)]
pub enum AdbServerError {
    Offline,
    NoDevices,
    MultipleDevices,
    MissingPackage,
    InvalidStorage,
    EncodingOverflow,
    ConnectionError(String),
    DecodingError(Vec<u8>),
    AdbError(String),
}

/// The mathematical value of an [`AdbServerError`]: the same variants over
/// sequences instead of heap strings and vectors.
pub enum ErrorModel {
    Offline,
    NoDevices,
    MultipleDevices,
    MissingPackage,
    InvalidStorage,
    EncodingOverflow,
    ConnectionError { detail: Seq<char> },
    DecodingError { raw: Seq<u8> },
    AdbError { message: Seq<char> },
}

impl View for AdbServerError {
    type V = ErrorModel;

    open spec fn view(&self) -> ErrorModel {
        match self {
            AdbServerError::Offline => ErrorModel::Offline,
            AdbServerError::NoDevices => ErrorModel::NoDevices,
            AdbServerError::MultipleDevices => ErrorModel::MultipleDevices,
            AdbServerError::MissingPackage => ErrorModel::MissingPackage,
            AdbServerError::InvalidStorage => ErrorModel::InvalidStorage,
            AdbServerError::EncodingOverflow => ErrorModel::EncodingOverflow,
            AdbServerError::ConnectionError(s) => ErrorModel::ConnectionError { detail: s@ },
            AdbServerError::DecodingError(b) => ErrorModel::DecodingError { raw: b@ },
            AdbServerError::AdbError(m) => ErrorModel::AdbError { message: m@ },
        }
    }
}

pub type AdbServerResult = Result<AdbServer, AdbServerError>;

/// Connection parameters for the local daemon: an IPv4 address held as its
/// four octets, a port, and read/write timeouts in milliseconds.  A pure
/// value: callers that open sockets read these fields and do so outside this
/// crate.
#[derive(Debug, Clone, Copy, PartialEq, Eq)]
pub struct AdbServer {
    pub host: [u8; 4],
    pub port: u32,
    pub read_timeout_ms: Option<u64>,
    pub write_timeout_ms: Option<u64>,
}

impl Default for AdbServer {
    /// The documented default endpoint: `127.0.0.1:5037` with two-second
    /// read and write timeouts.
    fn default() -> (r: Self)
        ensures
            r.host@ == seq![127u8, 0u8, 0u8, 1u8],
            r.port == 5037,
            r.read_timeout_ms == Some(2000u64),
            r.write_timeout_ms == Some(2000u64),
    {
        let r = AdbServer {
            host: [127, 0, 0, 1],
            port: 5037,
            read_timeout_ms: Some(2000),
            write_timeout_ms: Some(2000),
        };
        proof {
            assert(r.host@ =~= seq![127u8, 0u8, 0u8, 1u8]);
        }
        r
    }
}

impl AdbServer {
    /// Builds a handle from explicit connection parameters.
    pub fn new(host: [u8; 4], port: u32, read_timeout_ms: u64, write_timeout_ms: u64) -> (r:
        AdbServerResult)
        ensures
            r matches Ok(s) && s == (AdbServer {
                host,
                port,
                read_timeout_ms: Some(read_timeout_ms),
                write_timeout_ms: Some(write_timeout_ms),
            }),
    {
        Ok(
            AdbServer {
                host,
                port,
                read_timeout_ms: Some(read_timeout_ms),
                write_timeout_ms: Some(write_timeout_ms),
            },
        )
    }

    /// Frames an outgoing command: its byte length as four uppercase hex
    /// digits, then the command bytes.  A command longer than the prefix can
    /// announce is rejected, never truncated.
    pub fn encode_message(msg: &str) -> (r: Result<Vec<u8>, AdbServerError>)
        ensures
            msg.spec_bytes().len() <= MAX_COMMAND_LEN ==> (r matches Ok(v) && v@ == spec_frame(
                msg.spec_bytes(),
            )),
            msg.spec_bytes().len() > MAX_COMMAND_LEN ==> (r matches Err(e) && e@ is
                EncodingOverflow),
    {
        let bytes: &[u8] = msg.as_bytes();
        if bytes.len() > MAX_COMMAND_LEN {
            return Err(AdbServerError::EncodingOverflow);
        }
        let mut frame = hex4(bytes.len() as u16);
        let mut body = vstd::slice::slice_to_vec(bytes);
        frame.append(&mut body);
        proof {
            assert(frame@ =~= spec_frame(msg.spec_bytes()));
        }
        Ok(frame)
    }

    /// Decodes a final payload as UTF-8: the exchange's result when the
    /// bytes decode, a decoding failure carrying them when they do not.
    pub fn payload_to_string(bytes: Vec<u8>) -> (r: Result<String, AdbServerError>)
        ensures
            valid_utf8(bytes@) ==> (r matches Ok(s) && s@ == decode_utf8(bytes@)),
            !valid_utf8(bytes@) ==> (r matches Err(e) && e@ == (ErrorModel::DecodingError {
                raw: bytes@,
            })),
    {
        match utf8_to_string(bytes) {
            Ok(s) => Ok(s),
            Err(b) => Err(AdbServerError::DecodingError(b)),
        }
    }
}

/// The records a device-listing response decodes to, in listing order: one
/// per line whose state token is `device`, every other line dropped.
pub open spec fn device_list(ls: Seq<Seq<char>>) -> Seq<DeviceInfoView>
    decreases ls.len(),
{
    if ls.len() == 0 {
        Seq::empty()
    } else {
        let rest = device_list(ls.drop_first());
        match spec_parse_info(ls[0]) {
            Some(d) => seq![d] + rest,
            None => rest,
        }
    }
}

/// Parses a whole device-listing response: one record per accepted line,
/// in listing order.
pub fn devices_from_response(response: &str) -> (r: Vec<AdbDeviceInfo>)
    ensures
        r@.map_values(|d: AdbDeviceInfo| d@) == device_list(lines_of(response@)),
        forall|i: int| 0 <= i < r@.len() ==> (#[trigger] r@[i]).wf(),
{
    let ls = split_lines(response);
    let ghost lsv = ls@.map_values(|l: String| l@);
    let mut r: Vec<AdbDeviceInfo> = Vec::new();
    let mut i: usize = 0;
    proof {
        assert(r@.map_values(|d: AdbDeviceInfo| d@) =~= Seq::<DeviceInfoView>::empty());
        assert(lsv.skip(0) =~= lsv);
    }
    while i < ls.len()
        invariant
            i <= ls@.len(),
            lsv == ls@.map_values(|l: String| l@),
            device_list(lsv) == r@.map_values(|d: AdbDeviceInfo| d@) + device_list(
                lsv.skip(i as int),
            ),
            forall|j: int| 0 <= j < r@.len() ==> (#[trigger] r@[j]).wf(),
        decreases ls@.len() - i,
    {
        let ghost rm = r@.map_values(|d: AdbDeviceInfo| d@);
        proof {
            assert(lsv.skip(i as int)[0] == lsv[i as int]);
            assert(lsv[i as int] == ls@[i as int]@);
            assert(lsv.skip(i as int).drop_first() =~= lsv.skip(i as int + 1));
        }
        match AdbDeviceInfo::parse_info(ls[i].as_str()) {
            Some(d) => {
                r.push(d);
                proof {
                    assert(r@.map_values(|d: AdbDeviceInfo| d@) =~= rm.push(
                        spec_parse_info(lsv[i as int]).unwrap(),
                    ));
                    assert(rm.push(spec_parse_info(lsv[i as int]).unwrap()) + device_list(
                        lsv.skip(i as int + 1),
                    ) =~= rm + (seq![spec_parse_info(lsv[i as int]).unwrap()] + device_list(
                        lsv.skip(i as int + 1),
                    )));
                }
            },
            None => {},
        }
        i = i + 1;
    }
    proof {
        assert(lsv.skip(ls@.len() as int) =~= Seq::<Seq<char>>::empty());
    }
    r
}

/// Picks the active device: the first-listed record, deterministically;
/// an empty pool is the `NoDevices` failure.  Callers wanting
/// `MultipleDevices` semantics check the pool's size themselves.
pub fn select_active_device(devices: Vec<AdbDeviceInfo>) -> (r: Result<
    AdbDeviceInfo,
    AdbServerError,
>)
    ensures
        devices@.len() == 0 ==> (r matches Err(e) && e@ is NoDevices),
        devices@.len() > 0 ==> (r matches Ok(d) && d == devices@[0]),
{
    let mut devices = devices;
    if devices.len() == 0 {
        Err(AdbServerError::NoDevices)
    } else {
        Ok(devices.remove(0))
    }
}

} // verus!

//! A device handle: a serial number bound to a server handle.  Thin — it
//! only carries the values a per-device call needs.

use vstd::prelude::*;
use crate::server::{AdbServer, AdbServerError};

verus! {

/// One device bound to a server handle, with the privilege flags a fresh
/// handle starts out with.
#[derive(Debug)]
pub struct AdbDevice {
    serial_number: String,
    host: AdbServer,
    adb_root: bool,
    rooted: bool,
    su_0_cmd: bool,
    su_c_cmd: bool,
    run_as_pkg: Option<String>,
}

/// The mathematical value of an [`AdbDevice`].
pub struct DeviceView {
    pub serial: Seq<char>,
    pub host: AdbServer,
    pub adb_root: bool,
    pub rooted: bool,
    pub su_0_cmd: bool,
    pub su_c_cmd: bool,
    pub run_as_pkg: Option<Seq<char>>,
}

impl View for AdbDevice {
    type V = DeviceView;

    closed spec fn view(&self) -> DeviceView {
        DeviceView {
            serial: self.serial_number@,
            host: self.host,
            adb_root: self.adb_root,
            rooted: self.rooted,
            su_0_cmd: self.su_0_cmd,
            su_c_cmd: self.su_c_cmd,
            run_as_pkg: match &self.run_as_pkg {
                Some(p) => Some(p@),
                None => None,
            },
        }
    }
}

impl AdbDevice {
    /// Binds a serial number to a server handle.  Every privilege flag
    /// starts out pessimistic: nothing is probed here.
    pub fn new(serial_number: String, host: AdbServer) -> (r: Result<AdbDevice, AdbServerError>)
        ensures
            r matches Ok(d) && d@ == (DeviceView {
                serial: serial_number@,
                host,
                adb_root: false,
                rooted: false,
                su_0_cmd: false,
                su_c_cmd: false,
                run_as_pkg: None,
            }),
    {
        Ok(
            AdbDevice {
                serial_number,
                host,
                adb_root: false,
                rooted: false,
                su_0_cmd: false,
                su_c_cmd: false,
                run_as_pkg: None,
            },
        )
    }

    /// The server handle this device talks through.
    pub fn host(&self) -> (r: AdbServer)
        ensures
            r == self@.host,
    {
        self.host
    }

    /// The device's serial number.
    pub fn get_serial_number(&self) -> (r: String)
        ensures
            r@ == self@.serial,
    {
        self.serial_number.clone()
    }
}

} // verus!

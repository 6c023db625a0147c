//! The protocol's fixed four-byte ASCII command tags.

use vstd::prelude::*;

verus! {

/// One of the protocol's command tags.  Each maps to an exact four-byte
/// ASCII code; incoming bytes are compared against these codes and never
/// parsed further.
#[derive(Debug, PartialEq, Eq, Structural)]
pub enum SyncCmd {
    Data,
    Dent,
    Done,
    Fail,
    List,
    Okay,
    Quit,
    Recv,
    Send,
    Stat,
}

impl SyncCmd {
    /// The four ASCII bytes of this tag.
    pub open spec fn spec_code(self) -> Seq<u8> {
        match self {
            SyncCmd::Data => seq![68u8, 65u8, 84u8, 65u8],  // DATA
            SyncCmd::Dent => seq![68u8, 69u8, 78u8, 84u8],  // DENT
            SyncCmd::Done => seq![68u8, 79u8, 78u8, 69u8],  // DONE
            SyncCmd::Fail => seq![70u8, 65u8, 73u8, 76u8],  // FAIL
            SyncCmd::List => seq![76u8, 73u8, 83u8, 84u8],  // LIST
            SyncCmd::Okay => seq![79u8, 75u8, 65u8, 89u8],  // OKAY
            SyncCmd::Quit => seq![81u8, 85u8, 73u8, 84u8],  // QUIT
            SyncCmd::Recv => seq![82u8, 69u8, 67u8, 86u8],  // RECV
            SyncCmd::Send => seq![83u8, 69u8, 78u8, 68u8],  // SEND
            SyncCmd::Stat => seq![83u8, 84u8, 65u8, 84u8],  // STAT
        }
    }

    /// The four ASCII bytes of this tag.
    pub fn code(&self) -> (r: [u8; 4])
        ensures
            r@ == self.spec_code(),
    {
        let r: [u8; 4] = match *self {
            SyncCmd::Data => [68, 65, 84, 65],
            SyncCmd::Dent => [68, 69, 78, 84],
            SyncCmd::Done => [68, 79, 78, 69],
            SyncCmd::Fail => [70, 65, 73, 76],
            SyncCmd::List => [76, 73, 83, 84],
            SyncCmd::Okay => [79, 75, 65, 89],
            SyncCmd::Quit => [81, 85, 73, 84],
            SyncCmd::Recv => [82, 69, 67, 86],
            SyncCmd::Send => [83, 69, 78, 68],
            SyncCmd::Stat => [83, 84, 65, 84],
        };
        proof {
            assert(r@ =~= self.spec_code());
        }
        r
    }
}

} // verus!

//! Message type for the high-level CAN API.

use vstd::prelude::*;

verus! {

/// Flag bit marking a message as a CAN FD frame.
pub const CAN_FD_DATALENGTH: i32 = 0x0001;

/// Flag bit requesting bit-rate switching on a CAN FD frame.
pub const CAN_FD_BITRATESWITCH: i32 = 0x0002;

/// The payload bytes an outgoing frame keeps: at most the first 64.
pub open spec fn clamped_payload(data: Seq<u8>) -> Seq<u8> {
    if data.len() <= 64 {
        data
    } else {
        data.take(64)
    }
}

/// A frame exchanged over the high-level CAN API.
/// Notably, this only includes the 10-bit API id.
#[derive(Clone, PartialEq, Eq, Debug)]
pub struct CANMessage {
    flags: i32,
    data: Vec<u8>,
    api_id: u16,
    timestamp: Option<u64>,
}

impl CANMessage {
    /// The payload as the specification sees it.
    pub closed spec fn payload(&self) -> Seq<u8> {
        self.data@
    }

    /// The API id as the specification sees it.
    pub closed spec fn spec_api_id(&self) -> u16 {
        self.api_id
    }

    /// The timestamp as the specification sees it.
    pub closed spec fn spec_timestamp(&self) -> Option<u64> {
        self.timestamp
    }

    /// The frame's flag bits as the specification sees them.
    pub closed spec fn spec_flags(&self) -> i32 {
        self.flags
    }

    /// A message never carries more than 64 payload bytes.
    pub open spec fn wf(&self) -> bool {
        self.payload().len() <= 64
    }

    /// Builds an outgoing frame. At most the first 64 bytes of `data` are
    /// kept; `brs` requests bit-rate switching and `fd` marks the frame as
    /// a CAN FD frame.
    pub fn new(data: &[u8], api_id: u16, brs: bool, fd: bool) -> (r: Self)
        ensures
            r.wf(),
            r.payload() == clamped_payload(data@),
            r.spec_api_id() == api_id,
            r.spec_timestamp() is None,
            r.spec_flags() == (if brs { CAN_FD_BITRATESWITCH } else { 0i32 }) + (if fd {
                CAN_FD_DATALENGTH
            } else {
                0i32
            }),
    {
        let length: usize = if data.len() < 64 {
            data.len()
        } else {
            64
        };
        let mut data_buf: Vec<u8> = Vec::new();
        let mut i: usize = 0;
        while i < length
            invariant
                i <= length,
                length <= data@.len(),
                length <= 64,
                data_buf@ == data@.take(i as int),
            decreases length - i,
        {
            data_buf.push(data[i]);
            proof {
                assert(data_buf@ =~= data@.take(i + 1));
            }
            i += 1;
        }
        proof {
            assert(data_buf@ =~= clamped_payload(data@));
        }
        let mut flags: i32 = 0;
        if brs {
            flags = flags + CAN_FD_BITRATESWITCH;
        }
        if fd {
            flags = flags + CAN_FD_DATALENGTH;
        }
        Self { flags, data: data_buf, api_id, timestamp: None }
    }

    /// The payload bytes of the frame.
    pub fn data(&self) -> (r: &[u8])
        ensures
            r@ == self.payload(),
    {
        self.data.as_slice()
    }

    /// The payload length in bytes.
    pub fn length(&self) -> (r: u8)
        requires
            self.wf(),
        ensures
            r == self.payload().len(),
    {
        self.data.len() as u8
    }

    /// The 10-bit API id the frame is addressed to.
    pub fn api_id(&self) -> (r: u16)
        ensures
            r == self.spec_api_id(),
    {
        self.api_id
    }

    /// The receive timestamp, for frames read off the bus.
    pub fn timestamp(&self) -> (r: Option<u64>)
        ensures
            r == self.spec_timestamp(),
    {
        self.timestamp
    }

    /// Whether the frame requests bit-rate switching.
    pub fn brs(&self) -> (r: bool)
        ensures
            r == (self.spec_flags() & CAN_FD_BITRATESWITCH != 0),
    {
        self.flags & CAN_FD_BITRATESWITCH != 0
    }

    /// Whether the frame is a CAN FD frame.
    pub fn fd(&self) -> (r: bool)
        ensures
            r == (self.spec_flags() & CAN_FD_DATALENGTH != 0),
    {
        self.flags & CAN_FD_DATALENGTH != 0
    }
}

} // verus!

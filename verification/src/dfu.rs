//! DFU status machine: the fixed six-byte status record, the closed sets
//! of device states and device-reported error causes (each with an
//! unknown-value catch-all), and the capability set a DFU-capable backend
//! offers the transfer orchestrator.

use crate::transport::TransportError;
use vstd::prelude::*;

verus! {

/// Device state reported in a DFU status record. Unrecognized codes decode
/// to `Other` so a record always decodes to something printable.
#[derive(Clone, Copy, Debug, PartialEq, Eq, Structural)]
pub enum DfuState {
    AppIdle,
    AppDetach,
    Idle,
    DnLoadSync,
    DnLoadBusy,
    DnLoadIdle,
    ManifestSync,
    Manifest,
    ManifestWaitReset,
    UpLoadIdle,
    Error,
    Other(u8),
}

/// Device-reported error cause in a DFU status record; `Success` (code 0)
/// means no error. Unrecognized codes decode to `Other`.
#[derive(Clone, Copy, Debug, PartialEq, Eq, Structural)]
pub enum DfuError {
    Success,
    Target,
    File,
    Write,
    Erase,
    CheckErased,
    Prog,
    Verify,
    Address,
    NotDone,
    Firmware,
    Vendor,
    UsbReset,
    PowerOnReset,
    Unknown,
    StalledPkt,
    Other(u8),
}

/// The state a status byte decodes to.
pub open spec fn spec_state_of(b: u8) -> DfuState {
    if b == 0 {
        DfuState::AppIdle
    } else if b == 1 {
        DfuState::AppDetach
    } else if b == 2 {
        DfuState::Idle
    } else if b == 3 {
        DfuState::DnLoadSync
    } else if b == 4 {
        DfuState::DnLoadBusy
    } else if b == 5 {
        DfuState::DnLoadIdle
    } else if b == 6 {
        DfuState::ManifestSync
    } else if b == 7 {
        DfuState::Manifest
    } else if b == 8 {
        DfuState::ManifestWaitReset
    } else if b == 9 {
        DfuState::UpLoadIdle
    } else if b == 10 {
        DfuState::Error
    } else {
        DfuState::Other(b)
    }
}

/// The error cause a status byte decodes to.
pub open spec fn spec_error_of(b: u8) -> DfuError {
    if b == 0 {
        DfuError::Success
    } else if b == 1 {
        DfuError::Target
    } else if b == 2 {
        DfuError::File
    } else if b == 3 {
        DfuError::Write
    } else if b == 4 {
        DfuError::Erase
    } else if b == 5 {
        DfuError::CheckErased
    } else if b == 6 {
        DfuError::Prog
    } else if b == 7 {
        DfuError::Verify
    } else if b == 8 {
        DfuError::Address
    } else if b == 9 {
        DfuError::NotDone
    } else if b == 10 {
        DfuError::Firmware
    } else if b == 11 {
        DfuError::Vendor
    } else if b == 12 {
        DfuError::UsbReset
    } else if b == 13 {
        DfuError::PowerOnReset
    } else if b == 14 {
        DfuError::Unknown
    } else if b == 15 {
        DfuError::StalledPkt
    } else {
        DfuError::Other(b)
    }
}

impl DfuState {
    /// Decodes a raw state byte.
    pub fn from_byte(b: u8) -> (r: DfuState)
        ensures
            r == spec_state_of(b),
    {
        if b == 0 {
            DfuState::AppIdle
        } else if b == 1 {
            DfuState::AppDetach
        } else if b == 2 {
            DfuState::Idle
        } else if b == 3 {
            DfuState::DnLoadSync
        } else if b == 4 {
            DfuState::DnLoadBusy
        } else if b == 5 {
            DfuState::DnLoadIdle
        } else if b == 6 {
            DfuState::ManifestSync
        } else if b == 7 {
            DfuState::Manifest
        } else if b == 8 {
            DfuState::ManifestWaitReset
        } else if b == 9 {
            DfuState::UpLoadIdle
        } else if b == 10 {
            DfuState::Error
        } else {
            DfuState::Other(b)
        }
    }
}

impl DfuError {
    /// Decodes a raw error-cause byte.
    pub fn from_byte(b: u8) -> (r: DfuError)
        ensures
            r == spec_error_of(b),
    {
        if b == 0 {
            DfuError::Success
        } else if b == 1 {
            DfuError::Target
        } else if b == 2 {
            DfuError::File
        } else if b == 3 {
            DfuError::Write
        } else if b == 4 {
            DfuError::Erase
        } else if b == 5 {
            DfuError::CheckErased
        } else if b == 6 {
            DfuError::Prog
        } else if b == 7 {
            DfuError::Verify
        } else if b == 8 {
            DfuError::Address
        } else if b == 9 {
            DfuError::NotDone
        } else if b == 10 {
            DfuError::Firmware
        } else if b == 11 {
            DfuError::Vendor
        } else if b == 12 {
            DfuError::UsbReset
        } else if b == 13 {
            DfuError::PowerOnReset
        } else if b == 14 {
            DfuError::Unknown
        } else if b == 15 {
            DfuError::StalledPkt
        } else {
            DfuError::Other(b)
        }
    }
}

/// A DFU request code, as carried in the control-transfer setup.
#[derive(Clone, Copy, Debug, PartialEq, Eq, Structural)]
pub enum DfuRequest {
    Detach,
    DnLoad,
    UpLoad,
    GetStatus,
    ClrStatus,
    GetState,
    Abort,
    BusReset,
}

/// The wire code of a request.
pub open spec fn spec_request_code(r: DfuRequest) -> u8 {
    match r {
        DfuRequest::Detach => 0,
        DfuRequest::DnLoad => 1,
        DfuRequest::UpLoad => 2,
        DfuRequest::GetStatus => 3,
        DfuRequest::ClrStatus => 4,
        DfuRequest::GetState => 5,
        DfuRequest::Abort => 6,
        DfuRequest::BusReset => 7,
    }
}

impl DfuRequest {
    /// The wire code of this request.
    pub fn code(&self) -> (r: u8)
        ensures
            r == spec_request_code(*self),
    {
        match self {
            DfuRequest::Detach => 0,
            DfuRequest::DnLoad => 1,
            DfuRequest::UpLoad => 2,
            DfuRequest::GetStatus => 3,
            DfuRequest::ClrStatus => 4,
            DfuRequest::GetState => 5,
            DfuRequest::Abort => 6,
            DfuRequest::BusReset => 7,
        }
    }
}

/// The request-type byte of a DFU control transfer: class request to the
/// interface, host-to-device or device-to-host.
#[derive(Clone, Copy, Debug, PartialEq, Eq, Structural)]
pub enum DfuRequestType {
    Out,
    In,
}

/// The wire value of a request-type byte.
pub open spec fn spec_request_type_code(t: DfuRequestType) -> u8 {
    match t {
        DfuRequestType::Out => 0x21,
        DfuRequestType::In => 0xA1,
    }
}

impl DfuRequestType {
    /// The wire value of this request type: `0x21` out, `0xA1` in.
    pub fn code(&self) -> (r: u8)
        ensures
            r == spec_request_type_code(*self),
    {
        match self {
            DfuRequestType::Out => 0x21,
            DfuRequestType::In => 0xA1,
        }
    }
}

/// A decoded DFU status record (fixed six-byte wire layout).
#[derive(Clone, Copy, Debug, PartialEq, Eq, Structural)]
pub struct DfuStatus {
    /// Device-reported error cause.
    pub status: DfuError,
    /// Minimum host-side wait in milliseconds before the next poll;
    /// reconstructed from three raw bytes, so below `2^24`.
    pub poll_timeout: u32,
    /// Device state.
    pub state: DfuState,
    /// Index of a device string descriptor describing the status.
    pub string: u8,
}

/// A well-formed record's poll timeout fits in its three wire bytes.
pub open spec fn status_wf(s: DfuStatus) -> bool {
    s.poll_timeout < 0x1000000
}

/// The record a six-byte wire buffer decodes to.
pub open spec fn spec_status_of(b: Seq<u8>) -> DfuStatus {
    DfuStatus {
        status: spec_error_of(b[0]),
        poll_timeout: (b[1] + 0x100 * b[2] + 0x10000 * b[3]) as u32,
        state: spec_state_of(b[4]),
        string: b[5],
    }
}

impl DfuStatus {
    /// Builds a record from its fields.
    pub fn new(status: DfuError, poll_timeout: u32, state: DfuState, string: u8) -> (r: DfuStatus)
        requires
            poll_timeout < 0x1000000,
        ensures
            r == (DfuStatus { status, poll_timeout, state, string }),
            status_wf(r),
    {
        DfuStatus { status, poll_timeout, state, string }
    }

    /// Decodes the fixed six-byte wire layout: error cause, 24-bit
    /// little-endian poll timeout zero-extended to 32 bits, state, string
    /// index.
    pub fn from_bytes(b: &[u8]) -> (r: DfuStatus)
        requires
            b.len() >= 6,
        ensures
            r == spec_status_of(b@),
            status_wf(r),
    {
        let t: u32 = (b[1] as u32) + 0x100 * (b[2] as u32) + 0x10000 * (b[3] as u32);
        DfuStatus {
            status: DfuError::from_byte(b[0]),
            poll_timeout: t,
            state: DfuState::from_byte(b[4]),
            string: b[5],
        }
    }

    /// Success exactly when the device reported error cause zero; any
    /// other cause is returned as the device-reported error.
    pub fn status(&self) -> (r: Result<(), DfuError>)
        ensures
            self.status is Success ==> r == Result::<(), DfuError>::Ok(()),
            !(self.status is Success) ==> r == Result::<(), DfuError>::Err(self.status),
    {
        match self.status {
            DfuError::Success => Ok(()),
            e => Err(e),
        }
    }

    /// Minimum host-side wait in milliseconds before the device state may
    /// have changed.
    pub fn poll_timeout(&self) -> (r: u32)
        ensures
            r == self.poll_timeout,
    {
        self.poll_timeout
    }

    /// Device state.
    pub fn state(&self) -> (r: DfuState)
        ensures
            r == self.state,
    {
        self.state
    }

    /// String descriptor index.
    pub fn string(&self) -> (r: u8)
        ensures
            r == self.string,
    {
        self.string
    }
}

/// One operation issued to a DFU backend, as recorded in its ghost log.
pub enum DfuEvent {
    /// A download control transfer carrying these bytes.
    Download(Seq<u8>),
    /// An upload control transfer of at most `max` bytes; `reply` is what
    /// the device handed back.
    Upload { max: int, reply: Seq<u8> },
    GetState,
    GetStatus,
    ClearStatus,
    Abort,
    /// A wait of this many milliseconds before the next poll.
    Delay(int),
    /// A device reboot request.
    Reboot,
}

/// The capability set a DFU-capable backend offers: download, upload,
/// status and state queries, and the waits and reboot the polling
/// discipline needs. The ghost model is the sequence of status records the
/// device will report (`pending`) and the log of operations issued
/// (`log`); the orchestrator is verified against this model alone, so the
/// same orchestrator drives real USB or an SPI-mailbox emulation.
pub trait DfuOperations: Sized {
    /// The status records the device will report, oldest first; a status
    /// query fails once the device reports nothing more. An implementation
    /// outside the verified world may leave the default, which models a
    /// device that reports nothing.
    open spec fn pending(&self) -> Seq<DfuStatus> {
        Seq::empty()
    }

    /// The operations issued so far, oldest first.
    open spec fn log(&self) -> Seq<DfuEvent> {
        Seq::empty()
    }

    /// Download (send) a block to the target device. A download does not
    /// touch the device's status reporting.
    fn download(&mut self, data: &[u8]) -> (r: Result<usize, TransportError>)
        ensures
            match r {
                Ok(n) => n <= data.len() && final(self).pending() == old(self).pending()
                    && final(self).log() == old(self).log() + seq![DfuEvent::Download(data@)],
                Err(_) => true,
            },
    ;

    /// Upload (receive) at most `max` bytes from the target device; the
    /// bytes handed back are the recorded reply.
    fn upload(&mut self, max: usize) -> (r: Result<Vec<u8>, TransportError>)
        ensures
            match r {
                Ok(v) => v.len() <= max && final(self).log() == old(self).log() + seq![
                    DfuEvent::Upload { max: max as int, reply: v@ },
                ],
                Err(_) => true,
            },
    ;

    /// Queries the device state.
    fn get_state(&mut self) -> (r: Result<DfuState, TransportError>)
        ensures
            match r {
                Ok(_) => final(self).log() == old(self).log() + seq![DfuEvent::GetState],
                Err(_) => true,
            },
    ;

    /// Fetches the next status record the device reports.
    fn get_status(&mut self) -> (r: Result<DfuStatus, TransportError>)
        ensures
            match r {
                Ok(st) => old(self).pending().len() > 0 && st == old(self).pending()[0]
                    && final(self).pending() == old(self).pending().skip(1)
                    && final(self).log() == old(self).log() + seq![DfuEvent::GetStatus],
                Err(_) => true,
            },
    ;

    /// Clears a device-reported error status.
    fn clear_status(&mut self) -> (r: Result<(), TransportError>)
        ensures
            match r {
                Ok(()) => final(self).log() == old(self).log() + seq![DfuEvent::ClearStatus],
                Err(_) => true,
            },
    ;

    /// Aborts the current transfer phase.
    fn abort(&mut self) -> (r: Result<(), TransportError>)
        ensures
            match r {
                Ok(()) => final(self).log() == old(self).log() + seq![DfuEvent::Abort],
                Err(_) => true,
            },
    ;

    /// Waits at least `ms` milliseconds before the next poll. A wait does
    /// not touch the device's status reporting.
    fn delay_ms(&mut self, ms: u32) -> (r: Result<(), TransportError>)
        ensures
            match r {
                Ok(()) => final(self).pending() == old(self).pending() && final(self).log() == old(
                    self,
                ).log() + seq![DfuEvent::Delay(ms as int)],
                Err(_) => true,
            },
    ;

    /// Requests a device reboot. The request itself does not touch the
    /// device's status reporting.
    fn reboot(&mut self) -> (r: Result<(), TransportError>)
        ensures
            match r {
                Ok(()) => final(self).pending() == old(self).pending() && final(self).log() == old(
                    self,
                ).log() + seq![DfuEvent::Reboot],
                Err(_) => true,
            },
    ;
}

/// A reply stream decoded as status records: the statuses a device will
/// report, provided the host consumes replies only through status
/// queries — the transfer orchestrator's discipline.
pub open spec fn statuses_of(replies: Seq<Seq<u8>>) -> Seq<DfuStatus> {
    Seq::new(replies.len(), |i: int| spec_status_of(replies[i]))
}

/// Decoding commutes with consuming replies.
pub proof fn lemma_statuses_of_skip(replies: Seq<Seq<u8>>, n: int)
    requires
        0 <= n <= replies.len(),
    ensures
        statuses_of(replies.skip(n)) == statuses_of(replies).skip(n),
{
    assert(statuses_of(replies.skip(n)) =~= statuses_of(replies).skip(n));
}

/// One recorded call on a scripted DFU backend.
#[derive(Debug, Clone)]
pub enum DfuCall {
    Download(Vec<u8>),
    Upload(usize, Vec<u8>),
    GetState,
    GetStatus,
    ClearStatus,
    Abort,
    Delay(u32),
    Reboot,
}

/// The ghost event a recorded call stands for.
pub open spec fn call_event(c: DfuCall) -> DfuEvent {
    match c {
        DfuCall::Download(v) => DfuEvent::Download(v@),
        DfuCall::Upload(n, v) => DfuEvent::Upload { max: n as int, reply: v@ },
        DfuCall::GetState => DfuEvent::GetState,
        DfuCall::GetStatus => DfuEvent::GetStatus,
        DfuCall::ClearStatus => DfuEvent::ClearStatus,
        DfuCall::Abort => DfuEvent::Abort,
        DfuCall::Delay(ms) => DfuEvent::Delay(ms as int),
        DfuCall::Reboot => DfuEvent::Reboot,
    }
}

/// A scripted DFU backend: it reports a fixed sequence of status records,
/// answers uploads from a fixed buffer, and records every call. It stands
/// in for the device when exercising the orchestrator.
pub struct ScriptedDfu {
    statuses: Vec<DfuStatus>,
    pos: usize,
    upload_reply: Vec<u8>,
    calls: Vec<DfuCall>,
}

impl ScriptedDfu {
    /// A backend that will report exactly `statuses` and answer uploads
    /// with `upload_reply`.
    pub fn new(statuses: Vec<DfuStatus>, upload_reply: Vec<u8>) -> (r: ScriptedDfu)
        ensures
            r.pending() == statuses@,
            r.log() == Seq::<DfuEvent>::empty(),
    {
        let r = ScriptedDfu { statuses, pos: 0, upload_reply, calls: Vec::new() };
        proof {
            assert(r.statuses@.skip(0) =~= r.statuses@);
            assert(r.calls@.map(|i: int, c: DfuCall| call_event(c)) =~= Seq::<DfuEvent>::empty());
        }
        r
    }

    /// The calls issued so far.
    pub fn calls(&self) -> (r: &Vec<DfuCall>)
        ensures
            r@.map(|i: int, c: DfuCall| call_event(c)) == self.log(),
    {
        &self.calls
    }

    /// How many scripted statuses are still unreported.
    pub fn remaining(&self) -> (r: usize)
        ensures
            r == self.pending().len(),
    {
        if self.pos <= self.statuses.len() {
            self.statuses.len() - self.pos
        } else {
            0
        }
    }
}

impl ScriptedDfu {
    proof fn lemma_log_push(pre: Seq<DfuCall>, c: DfuCall)
        ensures
            pre.push(c).map(|i: int, c2: DfuCall| call_event(c2)) == pre.map(
                |i: int, c2: DfuCall| call_event(c2),
            ) + seq![call_event(c)],
    {
        assert(pre.push(c).map(|i: int, c2: DfuCall| call_event(c2)) =~= pre.map(
            |i: int, c2: DfuCall| call_event(c2),
        ) + seq![call_event(c)]);
    }
}

impl DfuOperations for ScriptedDfu {
    closed spec fn pending(&self) -> Seq<DfuStatus> {
        if self.pos <= self.statuses@.len() {
            self.statuses@.skip(self.pos as int)
        } else {
            Seq::empty()
        }
    }

    closed spec fn log(&self) -> Seq<DfuEvent> {
        self.calls@.map(|i: int, c: DfuCall| call_event(c))
    }

    fn download(&mut self, data: &[u8]) -> (r: Result<usize, TransportError>) {
        let mut copy: Vec<u8> = Vec::new();
        let mut i: usize = 0;
        while i < data.len()
            invariant
                i <= data.len(),
                copy@ == data@.take(i as int),
            decreases data.len() - i,
        {
            copy.push(data[i]);
            proof {
                assert(data@.take(i as int).push(data@[i as int]) =~= data@.take(i + 1));
            }
            i = i + 1;
        }
        proof {
            assert(copy@ =~= data@);
        }
        let ghost pre = self.calls@;
        self.calls.push(DfuCall::Download(copy));
        proof {
            Self::lemma_log_push(pre, DfuCall::Download(copy));
        }
        Ok(data.len())
    }

    fn upload(&mut self, max: usize) -> (r: Result<Vec<u8>, TransportError>) {
        let n = if max < self.upload_reply.len() {
            max
        } else {
            self.upload_reply.len()
        };
        let mut v: Vec<u8> = Vec::new();
        let mut rec: Vec<u8> = Vec::new();
        let mut i: usize = 0;
        while i < n
            invariant
                i <= n,
                n <= self.upload_reply.len(),
                v@.len() == i,
                rec@ == v@,
            decreases n - i,
        {
            v.push(self.upload_reply[i]);
            rec.push(self.upload_reply[i]);
            i = i + 1;
        }
        let ghost pre = self.calls@;
        let ghost reply = v@;
        self.calls.push(DfuCall::Upload(max, rec));
        proof {
            Self::lemma_log_push(pre, DfuCall::Upload(max, rec));
            assert(call_event(DfuCall::Upload(max, rec)) == (DfuEvent::Upload {
                max: max as int,
                reply,
            }));
        }
        Ok(v)
    }

    fn get_state(&mut self) -> (r: Result<DfuState, TransportError>) {
        let ghost pre = self.calls@;
        self.calls.push(DfuCall::GetState);
        proof {
            Self::lemma_log_push(pre, DfuCall::GetState);
        }
        Ok(DfuState::AppIdle)
    }

    fn get_status(&mut self) -> (r: Result<DfuStatus, TransportError>) {
        if self.pos < self.statuses.len() {
            let st = self.statuses[self.pos];
            self.pos = self.pos + 1;
            let ghost pre = self.calls@;
            self.calls.push(DfuCall::GetStatus);
            proof {
                Self::lemma_log_push(pre, DfuCall::GetStatus);
                assert(old(self).statuses@.skip(old(self).pos as int).skip(1)
                    =~= self.statuses@.skip(self.pos as int));
            }
            Ok(st)
        } else {
            Err(TransportError { message: "end of scripted statuses".to_owned() })
        }
    }

    fn clear_status(&mut self) -> (r: Result<(), TransportError>) {
        let ghost pre = self.calls@;
        self.calls.push(DfuCall::ClearStatus);
        proof {
            Self::lemma_log_push(pre, DfuCall::ClearStatus);
        }
        Ok(())
    }

    fn abort(&mut self) -> (r: Result<(), TransportError>) {
        let ghost pre = self.calls@;
        self.calls.push(DfuCall::Abort);
        proof {
            Self::lemma_log_push(pre, DfuCall::Abort);
        }
        Ok(())
    }

    fn delay_ms(&mut self, ms: u32) -> (r: Result<(), TransportError>) {
        // A scripted device advances its state instantly: there is nothing
        // to wait for, only the call is recorded.
        let ghost pre = self.calls@;
        self.calls.push(DfuCall::Delay(ms));
        proof {
            Self::lemma_log_push(pre, DfuCall::Delay(ms));
        }
        Ok(())
    }

    fn reboot(&mut self) -> (r: Result<(), TransportError>) {
        let ghost pre = self.calls@;
        self.calls.push(DfuCall::Reboot);
        proof {
            Self::lemma_log_push(pre, DfuCall::Reboot);
        }
        Ok(())
    }
}

} // verus!

//! DFU control transfers over a native USB backend.
//!
//! The backend is a capability interface around synchronous control
//! transfers; the request encoding, the interface selection and the mode
//! mapping are verified against its ghost model.

use crate::dfu::DfuEvent;
use crate::dfu::DfuOperations;
use crate::dfu::lemma_statuses_of_skip;
use crate::dfu::statuses_of;
use crate::dfu::DfuState;
use crate::dfu::DfuStatus;
use crate::dfu::spec_state_of;
use crate::dfu::spec_status_of;
use crate::modes::ModeMapper;
use crate::modes::RescueError;
use crate::modes::RescueMode;
use crate::modes::spec_usb_selector;
use crate::transport::TransportError;
use vstd::prelude::*;

verus! {

/// The interface class, subclass and protocol announcing a DFU-capable
/// interface.
pub const DFU_CLASS: u8 = 0xFE;

pub const DFU_SUBCLASS: u8 = 1;

pub const DFU_PROTOCOL: u8 = 2;

/// One operation on a USB control-transfer backend, as recorded in its
/// ghost log.
pub enum UsbOp {
    /// A host-to-device control transfer.
    Out { request_type: u8, request: u8, value: u16, index: u16, data: Seq<u8> },
    /// A device-to-host control transfer of at most `len` bytes; `reply`
    /// is what the device handed back.
    In { request_type: u8, request: u8, value: u16, index: u16, len: int, reply: Seq<u8> },
    /// Selecting an alternate setting on an interface.
    AltSetting { interface: u8, setting: u8 },
    /// A wait of this many milliseconds.
    Delay(int),
    /// A bus reset.
    Reset,
}

/// A synchronous USB control-transfer backend. The ghost model is the
/// sequence of replies the device will give to IN transfers (`replies`)
/// and the log of operations issued (`log`).
pub trait ControlTransferBackend: Sized {
    /// The replies the device will give to IN transfers, oldest first.
    /// An implementation outside the verified world may leave the default,
    /// which models a device that answers nothing.
    open spec fn replies(&self) -> Seq<Seq<u8>> {
        Seq::empty()
    }

    /// The operations issued so far, oldest first.
    open spec fn log(&self) -> Seq<UsbOp> {
        Seq::empty()
    }

    /// A host-to-device control transfer; returns the bytes accepted.
    fn control_out(
        &mut self,
        request_type: u8,
        request: u8,
        value: u16,
        index: u16,
        data: &[u8],
    ) -> (r: Result<usize, TransportError>)
        ensures
            final(self).replies() == old(self).replies(),
            match r {
                Ok(n) => n <= data.len() && final(self).log() == old(self).log() + seq![
                    UsbOp::Out { request_type, request, value, index, data: data@ },
                ],
                Err(_) => final(self).log() == old(self).log(),
            },
    ;

    /// A device-to-host control transfer into a buffer of `max` bytes.
    fn control_in(
        &mut self,
        request_type: u8,
        request: u8,
        value: u16,
        index: u16,
        max: usize,
    ) -> (r: Result<Vec<u8>, TransportError>)
        ensures
            match r {
                Ok(v) => old(self).replies().len() > 0 && v@ == old(self).replies()[0] && v.len()
                    <= max && final(self).replies() == old(self).replies().skip(1)
                    && final(self).log() == old(self).log() + seq![
                    UsbOp::In { request_type, request, value, index, len: max as int, reply: v@ },
                ],
                Err(_) => final(self).replies() == old(self).replies()
                    && final(self).log() == old(self).log(),
            },
    ;

    /// Selects an alternate setting on an interface.
    fn set_alternate_setting(&mut self, interface: u8, setting: u8) -> (r: Result<
        (),
        TransportError,
    >)
        ensures
            final(self).replies() == old(self).replies(),
            match r {
                Ok(()) => final(self).log() == old(self).log() + seq![
                    UsbOp::AltSetting { interface, setting },
                ],
                Err(_) => final(self).log() == old(self).log(),
            },
    ;

    /// Waits at least `ms` milliseconds.
    fn delay_ms(&mut self, ms: u32) -> (r: Result<(), TransportError>)
        ensures
            final(self).replies() == old(self).replies(),
            match r {
                Ok(()) => final(self).log() == old(self).log() + seq![UsbOp::Delay(ms as int)],
                Err(_) => final(self).log() == old(self).log(),
            },
    ;

    /// Resets the bus, rebooting the device.
    fn reset(&mut self) -> (r: Result<(), TransportError>)
        ensures
            final(self).replies() == old(self).replies(),
            match r {
                Ok(()) => final(self).log() == old(self).log() + seq![UsbOp::Reset],
                Err(_) => final(self).log() == old(self).log(),
            },
    ;
}

/// The class/subclass/protocol triple and number of one interface
/// descriptor, as read from the active configuration.
#[derive(Clone, Copy, Debug, PartialEq, Eq, Structural)]
pub struct InterfaceDesc {
    pub class_code: u8,
    pub sub_class_code: u8,
    pub protocol_code: u8,
    pub number: u8,
}

/// Whether a descriptor announces the DFU class, subclass and protocol.
pub open spec fn is_dfu_interface(d: InterfaceDesc) -> bool {
    d.class_code == DFU_CLASS && d.sub_class_code == DFU_SUBCLASS && d.protocol_code
        == DFU_PROTOCOL
}

/// Picks the interface to claim: the number of the first descriptor that
/// announces DFU, if any does.
pub fn find_dfu_interface(descs: &Vec<InterfaceDesc>) -> (r: Option<u8>)
    ensures
        match r {
            Some(n) => exists|i: int|
                0 <= i < descs@.len() && is_dfu_interface(descs@[i]) && n == descs@[i].number && (
                forall|j: int| 0 <= j < i ==> !is_dfu_interface(descs@[j])),
            None => forall|i: int| 0 <= i < descs@.len() ==> !is_dfu_interface(descs@[i]),
        },
{
    let mut i: usize = 0;
    while i < descs.len()
        invariant
            i <= descs.len(),
            forall|j: int| 0 <= j < i ==> !is_dfu_interface(descs@[j]),
        decreases descs.len() - i,
    {
        let d = descs[i];
        if d.class_code == DFU_CLASS && d.sub_class_code == DFU_SUBCLASS && d.protocol_code
            == DFU_PROTOCOL {
            return Some(d.number);
        }
        i = i + 1;
    }
    None
}

/// One recorded call on a scripted USB backend.
#[derive(Debug, Clone)]
pub enum UsbCall {
    Out(u8, u8, u16, u16, Vec<u8>),
    In(u8, u8, u16, u16, usize, Vec<u8>),
    AltSetting(u8, u8),
    Delay(u32),
    Reset,
}

/// The ghost operation a recorded call stands for.
pub open spec fn usb_event(c: UsbCall) -> UsbOp {
    match c {
        UsbCall::Out(rt, rq, value, index, v) => UsbOp::Out {
            request_type: rt,
            request: rq,
            value,
            index,
            data: v@,
        },
        UsbCall::In(rt, rq, value, index, len, v) => UsbOp::In {
            request_type: rt,
            request: rq,
            value,
            index,
            len: len as int,
            reply: v@,
        },
        UsbCall::AltSetting(interface, setting) => UsbOp::AltSetting { interface, setting },
        UsbCall::Delay(ms) => UsbOp::Delay(ms as int),
        UsbCall::Reset => UsbOp::Reset,
    }
}

/// A scripted USB backend: it answers IN transfers from a fixed reply
/// script and records every operation. It stands in for the device when
/// exercising the USB DFU front end.
pub struct ScriptedUsb {
    replies: Vec<Vec<u8>>,
    pos: usize,
    calls: Vec<UsbCall>,
}

impl ScriptedUsb {
    /// A backend that will answer IN transfers with exactly `replies`.
    pub fn new(replies: Vec<Vec<u8>>) -> (r: ScriptedUsb)
        ensures
            r.replies() == replies.deep_view(),
            r.log() == Seq::<UsbOp>::empty(),
    {
        let r = ScriptedUsb { replies, pos: 0, calls: Vec::new() };
        proof {
            assert(r.replies.deep_view().skip(0) =~= r.replies.deep_view());
            assert(r.calls@.map(|i: int, c: UsbCall| usb_event(c)) =~= Seq::<UsbOp>::empty());
        }
        r
    }

    /// The operations issued so far.
    pub fn calls(&self) -> (r: &Vec<UsbCall>)
        ensures
            r@.map(|i: int, c: UsbCall| usb_event(c)) == self.log(),
    {
        &self.calls
    }

    proof fn lemma_log_push(pre: Seq<UsbCall>, c: UsbCall)
        ensures
            pre.push(c).map(|i: int, c2: UsbCall| usb_event(c2)) == pre.map(
                |i: int, c2: UsbCall| usb_event(c2),
            ) + seq![usb_event(c)],
    {
        assert(pre.push(c).map(|i: int, c2: UsbCall| usb_event(c2)) =~= pre.map(
            |i: int, c2: UsbCall| usb_event(c2),
        ) + seq![usb_event(c)]);
    }
}

impl ControlTransferBackend for ScriptedUsb {
    closed spec fn replies(&self) -> Seq<Seq<u8>> {
        if self.pos <= self.replies.deep_view().len() {
            self.replies.deep_view().skip(self.pos as int)
        } else {
            Seq::empty()
        }
    }

    closed spec fn log(&self) -> Seq<UsbOp> {
        self.calls@.map(|i: int, c: UsbCall| usb_event(c))
    }

    fn control_out(
        &mut self,
        request_type: u8,
        request: u8,
        value: u16,
        index: u16,
        data: &[u8],
    ) -> (r: Result<usize, TransportError>) {
        let mut copy: Vec<u8> = Vec::new();
        let mut i: usize = 0;
        while i < data.len()
            invariant
                i <= data.len(),
                copy@ == data@.take(i as int),
            decreases data.len() - i,
        {
            copy.push(data[i]);
            proof {
                assert(data@.take(i as int).push(data@[i as int]) =~= data@.take(i + 1));
            }
            i = i + 1;
        }
        proof {
            assert(copy@ =~= data@);
        }
        let ghost pre = self.calls@;
        self.calls.push(UsbCall::Out(request_type, request, value, index, copy));
        proof {
            Self::lemma_log_push(pre, UsbCall::Out(request_type, request, value, index, copy));
        }
        Ok(data.len())
    }

    fn control_in(
        &mut self,
        request_type: u8,
        request: u8,
        value: u16,
        index: u16,
        max: usize,
    ) -> (r: Result<Vec<u8>, TransportError>) {
        if self.pos >= self.replies.len() {
            return Err(TransportError { message: "end of scripted replies".to_owned() });
        }
        let reply = &self.replies[self.pos];
        if reply.len() > max {
            return Err(TransportError { message: "scripted reply too long".to_owned() });
        }
        let mut copy: Vec<u8> = Vec::new();
        let mut rec: Vec<u8> = Vec::new();
        let mut i: usize = 0;
        while i < reply.len()
            invariant
                i <= reply.len(),
                copy@ == reply@.take(i as int),
                rec@ == copy@,
                reply == &self.replies[self.pos as int],
                self.pos < self.replies.len(),
            decreases reply.len() - i,
        {
            copy.push(reply[i]);
            rec.push(reply[i]);
            proof {
                assert(reply@.take(i as int).push(reply@[i as int]) =~= reply@.take(i + 1));
            }
            i = i + 1;
        }
        proof {
            assert(copy@ =~= reply@);
            assert(copy@ =~= self.replies.deep_view()[self.pos as int]);
        }
        self.pos = self.pos + 1;
        let ghost pre = self.calls@;
        self.calls.push(UsbCall::In(request_type, request, value, index, max, rec));
        proof {
            Self::lemma_log_push(pre, UsbCall::In(request_type, request, value, index, max, rec));
            assert(old(self).replies.deep_view().skip(old(self).pos as int).skip(1)
                =~= self.replies.deep_view().skip(self.pos as int));
        }
        Ok(copy)
    }

    fn set_alternate_setting(&mut self, interface: u8, setting: u8) -> (r: Result<
        (),
        TransportError,
    >) {
        let ghost pre = self.calls@;
        self.calls.push(UsbCall::AltSetting(interface, setting));
        proof {
            Self::lemma_log_push(pre, UsbCall::AltSetting(interface, setting));
        }
        Ok(())
    }

    fn delay_ms(&mut self, ms: u32) -> (r: Result<(), TransportError>) {
        // A scripted device advances its state instantly: there is nothing
        // to wait for, only the call is recorded.
        let ghost pre = self.calls@;
        self.calls.push(UsbCall::Delay(ms));
        proof {
            Self::lemma_log_push(pre, UsbCall::Delay(ms));
        }
        Ok(())
    }

    fn reset(&mut self) -> (r: Result<(), TransportError>) {
        let ghost pre = self.calls@;
        self.calls.push(UsbCall::Reset);
        proof {
            Self::lemma_log_push(pre, UsbCall::Reset);
        }
        Ok(())
    }
}

/// A failure of a USB DFU operation.
#[derive(Debug)]
pub enum UsbDfuError {
    /// The transport cannot serve the requested mode.
    Mode(RescueMode),
    /// The USB backend failed.
    Transport(TransportError),
}

/// DFU-style control transfers over a native USB backend.
pub struct UsbDfu<B: ControlTransferBackend> {
    /// The backend, owned for the duration of a session.
    pub usb: B,
    /// The claimed interface number carried in the setup's index field.
    pub interface: u8,
}

impl<B: ControlTransferBackend> UsbDfu<B> {
    /// Takes ownership of the backend, claiming `interface`.
    pub fn new(usb: B, interface: u8) -> (r: UsbDfu<B>)
        ensures
            r.usb == usb,
            r.interface == interface,
    {
        UsbDfu { usb, interface }
    }

    /// Selects a rescue mode: the mapped alternate setting is applied to
    /// the claimed interface. An unsupported mode is refused before
    /// anything touches the wire.
    pub fn set_mode(&mut self, mode: RescueMode) -> (r: Result<(), UsbDfuError>)
        ensures
            final(self).interface == old(self).interface,
            match r {
                Ok(()) => spec_usb_selector(mode) is Some
                    && final(self).usb.log() == old(self).usb.log() + seq![
                    UsbOp::AltSetting {
                        interface: old(self).interface,
                        setting: spec_usb_selector(mode)->0,
                    },
                ],
                Err(UsbDfuError::Mode(m)) => spec_usb_selector(mode) is None && m == mode
                    && final(self).usb.log() == old(self).usb.log(),
                Err(UsbDfuError::Transport(_)) => true,
            },
    {
        let setting: u8 = match ModeMapper::usb_selector(mode) {
            Ok(s) => s,
            Err(RescueError::BadMode(m)) => {
                return Err(UsbDfuError::Mode(m));
            },
        };
        let intf = self.interface;
        match self.usb.set_alternate_setting(intf, setting) {
            Ok(()) => Ok(()),
            Err(e) => Err(UsbDfuError::Transport(e)),
        }
    }

    /// Reboots the device through a bus reset.
    pub fn reboot(&mut self) -> (r: Result<(), TransportError>)
        ensures
            final(self).interface == old(self).interface,
            final(self).usb.replies() == old(self).usb.replies(),
            match r {
                Ok(()) => final(self).usb.log() == old(self).usb.log() + seq![UsbOp::Reset],
                Err(_) => final(self).usb.log() == old(self).usb.log(),
            },
    {
        self.usb.reset()
    }

    /// Download request: a class OUT transfer carrying the chunk.
    pub fn download(&mut self, data: &[u8]) -> (r: Result<usize, TransportError>)
        ensures
            final(self).interface == old(self).interface,
            final(self).usb.replies() == old(self).usb.replies(),
            match r {
                Ok(n) => n <= data.len() && final(self).usb.log() == old(self).usb.log() + seq![
                    UsbOp::Out {
                        request_type: 0x21,
                        request: 1,
                        value: 0,
                        index: old(self).interface as u16,
                        data: data@,
                    },
                ],
                Err(_) => final(self).usb.log() == old(self).usb.log(),
            },
    {
        let idx = self.interface as u16;
        self.usb.control_out(0x21, 1, 0, idx, data)
    }

    /// Upload request: a class IN transfer into a buffer of `max` bytes;
    /// returns exactly what the device handed back.
    pub fn upload(&mut self, max: usize) -> (r: Result<Vec<u8>, TransportError>)
        ensures
            final(self).interface == old(self).interface,
            match r {
                Ok(v) => v.len() <= max && old(self).usb.replies().len() > 0
                    && v@ == old(self).usb.replies()[0]
                    && final(self).usb.replies() == old(self).usb.replies().skip(1)
                    && final(self).usb.log() == old(self).usb.log() + seq![
                    UsbOp::In {
                        request_type: 0xA1,
                        request: 2,
                        value: 0,
                        index: old(self).interface as u16,
                        len: max as int,
                        reply: v@,
                    },
                ],
                Err(_) => final(self).usb.log() == old(self).usb.log(),
            },
    {
        let idx = self.interface as u16;
        self.usb.control_in(0xA1, 2, 0, idx, max)
    }

    /// State query: a one-byte class IN transfer.
    pub fn get_state(&mut self) -> (r: Result<DfuState, TransportError>)
        ensures
            final(self).interface == old(self).interface,
            match r {
                Ok(st) => old(self).usb.replies().len() > 0 && old(self).usb.replies()[0].len()
                    >= 1 && st == spec_state_of(old(self).usb.replies()[0][0])
                    && final(self).usb.replies() == old(self).usb.replies().skip(1)
                    && final(self).usb.log() == old(self).usb.log() + seq![
                    UsbOp::In {
                        request_type: 0xA1,
                        request: 5,
                        value: 0,
                        index: old(self).interface as u16,
                        len: 1,
                        reply: old(self).usb.replies()[0],
                    },
                ],
                Err(_) => true,
            },
    {
        let idx = self.interface as u16;
        let v = match self.usb.control_in(0xA1, 5, 0, idx, 1) {
            Ok(v) => v,
            Err(e) => return Err(e),
        };
        if v.len() < 1 {
            return Err(TransportError { message: "short state reply".to_owned() });
        }
        Ok(DfuState::from_byte(v[0]))
    }

    /// Status query: a six-byte class IN transfer decoded as a status
    /// record.
    pub fn get_status(&mut self) -> (r: Result<DfuStatus, TransportError>)
        ensures
            final(self).interface == old(self).interface,
            match r {
                Ok(st) => old(self).usb.replies().len() > 0 && old(self).usb.replies()[0].len()
                    >= 6 && st == spec_status_of(old(self).usb.replies()[0])
                    && final(self).usb.replies() == old(self).usb.replies().skip(1)
                    && final(self).usb.log() == old(self).usb.log() + seq![
                    UsbOp::In {
                        request_type: 0xA1,
                        request: 3,
                        value: 0,
                        index: old(self).interface as u16,
                        len: 6,
                        reply: old(self).usb.replies()[0],
                    },
                ],
                Err(_) => true,
            },
    {
        let idx = self.interface as u16;
        let v = match self.usb.control_in(0xA1, 3, 0, idx, 6) {
            Ok(v) => v,
            Err(e) => return Err(e),
        };
        if v.len() < 6 {
            return Err(TransportError { message: "short status reply".to_owned() });
        }
        Ok(DfuStatus::from_bytes(v.as_slice()))
    }

    /// Clears a device-reported error status.
    pub fn clear_status(&mut self) -> (r: Result<(), TransportError>)
        ensures
            final(self).interface == old(self).interface,
            match r {
                Ok(()) => final(self).usb.log() == old(self).usb.log() + seq![
                    UsbOp::Out {
                        request_type: 0x21,
                        request: 4,
                        value: 0,
                        index: old(self).interface as u16,
                        data: Seq::empty(),
                    },
                ],
                Err(_) => final(self).usb.log() == old(self).usb.log(),
            },
    {
        let idx = self.interface as u16;
        let empty: Vec<u8> = Vec::new();
        match self.usb.control_out(0x21, 4, 0, idx, empty.as_slice()) {
            Ok(_) => {
                proof {
                    assert(empty@ =~= Seq::<u8>::empty());
                }
                Ok(())
            },
            Err(e) => Err(e),
        }
    }

    /// Aborts the current transfer phase: a zero-length class OUT
    /// transfer with the abort request code.
    pub fn abort(&mut self) -> (r: Result<(), TransportError>)
        ensures
            final(self).interface == old(self).interface,
            match r {
                Ok(()) => final(self).usb.log() == old(self).usb.log() + seq![
                    UsbOp::Out {
                        request_type: 0x21,
                        request: 6,
                        value: 0,
                        index: old(self).interface as u16,
                        data: Seq::empty(),
                    },
                ],
                Err(_) => final(self).usb.log() == old(self).usb.log(),
            },
    {
        let idx = self.interface as u16;
        let empty: Vec<u8> = Vec::new();
        match self.usb.control_out(0x21, 6, 0, idx, empty.as_slice()) {
            Ok(_) => {
                proof {
                    assert(empty@ =~= Seq::<u8>::empty());
                }
                Ok(())
            },
            Err(e) => Err(e),
        }
    }
}

/// The DFU operation a backend operation stands for, if any: mode
/// selection and unrecognized transfers stand for none.
pub open spec fn dfu_event_of(op: UsbOp) -> Option<DfuEvent> {
    match op {
        UsbOp::Out { request_type, request, data, .. } => {
            if request_type == 0x21 && request == 1 {
                Some(DfuEvent::Download(data))
            } else if request_type == 0x21 && request == 4 {
                Some(DfuEvent::ClearStatus)
            } else if request_type == 0x21 && request == 6 {
                Some(DfuEvent::Abort)
            } else {
                None
            }
        },
        UsbOp::In { request_type, request, len, reply, .. } => {
            if request_type == 0xA1 && request == 3 {
                Some(DfuEvent::GetStatus)
            } else if request_type == 0xA1 && request == 2 {
                Some(DfuEvent::Upload { max: len, reply })
            } else if request_type == 0xA1 && request == 5 {
                Some(DfuEvent::GetState)
            } else {
                None
            }
        },
        UsbOp::AltSetting { .. } => None,
        UsbOp::Delay(ms) => Some(DfuEvent::Delay(ms)),
        UsbOp::Reset => Some(DfuEvent::Reboot),
    }
}

/// The DFU operations recorded in a backend log, in order.
pub open spec fn dfu_events_of(log: Seq<UsbOp>) -> Seq<DfuEvent>
    decreases log.len(),
{
    if log.len() == 0 {
        Seq::empty()
    } else {
        let rest = dfu_events_of(log.skip(1));
        match dfu_event_of(log[0]) {
            Some(e) => seq![e] + rest,
            None => rest,
        }
    }
}

proof fn lemma_dfu_events_concat(a: Seq<UsbOp>, b: Seq<UsbOp>)
    ensures
        dfu_events_of(a + b) == dfu_events_of(a) + dfu_events_of(b),
    decreases a.len(),
{
    if a.len() == 0 {
        assert(a + b =~= b);
        assert(dfu_events_of(a) + dfu_events_of(b) =~= dfu_events_of(b));
    } else {
        assert((a + b).skip(1) =~= a.skip(1) + b);
        lemma_dfu_events_concat(a.skip(1), b);
        assert((a + b)[0] == a[0]);
        match dfu_event_of(a[0]) {
            Some(e) => {
                assert(dfu_events_of(a + b) =~= dfu_events_of(a) + dfu_events_of(b));
            },
            None => {},
        }
    }
}

proof fn lemma_dfu_events_single(op: UsbOp)
    ensures
        dfu_events_of(seq![op]) == match dfu_event_of(op) {
            Some(e) => seq![e],
            None => Seq::<DfuEvent>::empty(),
        },
{
    assert(seq![op].skip(1) =~= Seq::<UsbOp>::empty());
    assert(dfu_events_of(Seq::<UsbOp>::empty()) == Seq::<DfuEvent>::empty());
    match dfu_event_of(op) {
        Some(e) => {
            assert(dfu_events_of(seq![op]) =~= seq![e]);
        },
        None => {},
    }
}

proof fn lemma_dfu_events_push(pre: Seq<UsbOp>, op: UsbOp, e: DfuEvent)
    requires
        dfu_event_of(op) == Some(e),
    ensures
        dfu_events_of(pre + seq![op]) == dfu_events_of(pre) + seq![e],
{
    lemma_dfu_events_concat(pre, seq![op]);
    lemma_dfu_events_single(op);
}

/// The USB front end is itself a DFU-capable backend for the transfer
/// orchestrator: its status script is the backend's reply stream decoded
/// as records, its operation log the backend's log with the DFU
/// operations picked out.
impl<B: ControlTransferBackend> DfuOperations for UsbDfu<B> {
    open spec fn pending(&self) -> Seq<DfuStatus> {
        statuses_of(self.usb.replies())
    }

    open spec fn log(&self) -> Seq<DfuEvent> {
        dfu_events_of(self.usb.log())
    }

    fn download(&mut self, data: &[u8]) -> (r: Result<usize, TransportError>) {
        let ghost pre = self.usb.log();
        let r = UsbDfu::download(self, data);
        proof {
            if r is Ok {
                let op = UsbOp::Out {
                    request_type: 0x21,
                    request: 1,
                    value: 0,
                    index: old(self).interface as u16,
                    data: data@,
                };
                lemma_dfu_events_push(pre, op, DfuEvent::Download(data@));
            }
        }
        r
    }

    fn upload(&mut self, max: usize) -> (r: Result<Vec<u8>, TransportError>) {
        let ghost pre = self.usb.log();
        let r = UsbDfu::upload(self, max);
        proof {
            match &r {
                Ok(v) => {
                    let op = UsbOp::In {
                        request_type: 0xA1,
                        request: 2,
                        value: 0,
                        index: old(self).interface as u16,
                        len: max as int,
                        reply: v@,
                    };
                    lemma_dfu_events_push(pre, op, DfuEvent::Upload { max: max as int, reply: v@ });
                },
                Err(_) => {},
            }
        }
        r
    }

    fn get_state(&mut self) -> (r: Result<DfuState, TransportError>) {
        let ghost pre = self.usb.log();
        let ghost replies0 = self.usb.replies();
        let r = UsbDfu::get_state(self);
        proof {
            if r is Ok {
                let op = UsbOp::In {
                    request_type: 0xA1,
                    request: 5,
                    value: 0,
                    index: old(self).interface as u16,
                    len: 1,
                    reply: replies0[0],
                };
                lemma_dfu_events_push(pre, op, DfuEvent::GetState);
            }
        }
        r
    }

    fn get_status(&mut self) -> (r: Result<DfuStatus, TransportError>) {
        let ghost pre = self.usb.log();
        let ghost replies0 = self.usb.replies();
        let r = UsbDfu::get_status(self);
        proof {
            if r is Ok {
                let op = UsbOp::In {
                    request_type: 0xA1,
                    request: 3,
                    value: 0,
                    index: old(self).interface as u16,
                    len: 6,
                    reply: replies0[0],
                };
                lemma_dfu_events_push(pre, op, DfuEvent::GetStatus);
                lemma_statuses_of_skip(replies0, 1);
            }
        }
        r
    }

    fn clear_status(&mut self) -> (r: Result<(), TransportError>) {
        let ghost pre = self.usb.log();
        let r = UsbDfu::clear_status(self);
        proof {
            if r is Ok {
                let op = UsbOp::Out {
                    request_type: 0x21,
                    request: 4,
                    value: 0,
                    index: old(self).interface as u16,
                    data: Seq::empty(),
                };
                lemma_dfu_events_push(pre, op, DfuEvent::ClearStatus);
            }
        }
        r
    }

    fn abort(&mut self) -> (r: Result<(), TransportError>) {
        let ghost pre = self.usb.log();
        let r = UsbDfu::abort(self);
        proof {
            if r is Ok {
                let op = UsbOp::Out {
                    request_type: 0x21,
                    request: 6,
                    value: 0,
                    index: old(self).interface as u16,
                    data: Seq::empty(),
                };
                lemma_dfu_events_push(pre, op, DfuEvent::Abort);
            }
        }
        r
    }

    fn delay_ms(&mut self, ms: u32) -> (r: Result<(), TransportError>) {
        let ghost pre = self.usb.log();
        let r = self.usb.delay_ms(ms);
        proof {
            if r is Ok {
                lemma_dfu_events_push(pre, UsbOp::Delay(ms as int), DfuEvent::Delay(ms as int));
            }
        }
        r
    }

    fn reboot(&mut self) -> (r: Result<(), TransportError>) {
        let ghost pre = self.usb.log();
        let r = UsbDfu::reboot(self);
        proof {
            if r is Ok {
                lemma_dfu_events_push(pre, UsbOp::Reset, DfuEvent::Reboot);
            }
        }
        r
    }
}

} // verus!

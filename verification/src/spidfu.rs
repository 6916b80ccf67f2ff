//! DFU control transfers emulated over a SPI-mapped flash mailbox.
//!
//! A control "setup" header is programmed into a fixed scratch address;
//! the device answers with a four-byte little-endian status word that must
//! decode as success before the payload region at address zero is written
//! or read. The marshalling and the success gate are verified against the
//! ghost model of the flash channel.

use crate::dfu::DfuEvent;
use crate::dfu::DfuOperations;
use crate::dfu::DfuState;
use crate::dfu::DfuStatus;
use crate::dfu::lemma_statuses_of_skip;
use crate::dfu::statuses_of;
use crate::dfu::spec_state_of;
use crate::dfu::spec_status_of;
use crate::modes::ModeMapper;
use crate::modes::RescueError;
use crate::modes::RescueMode;
use crate::modes::spec_spi_selector;
use crate::rom_error::ROM_ERROR_OK;
use crate::rom_error::RomError;
use crate::transport::TransportError;
use vstd::prelude::*;

verus! {

/// The fixed flash address used as the control mailbox.
pub const MAILBOX: u32 = 0x00FFF000;

/// The eight-byte control setup header, little-endian on the wire.
#[derive(Clone, Copy, Debug, PartialEq, Eq, Structural)]
pub struct SetupData {
    pub request_type: u8,
    pub request: u8,
    pub value: u16,
    pub index: u16,
    pub length: u16,
}

/// The wire bytes of a setup header: request type, request, then value,
/// index and length little-endian.
pub open spec fn spec_setup_bytes(s: SetupData) -> Seq<u8> {
    seq![
        s.request_type,
        s.request,
        (s.value & 0xFF) as u8,
        (s.value >> 8) as u8,
        (s.index & 0xFF) as u8,
        (s.index >> 8) as u8,
        (s.length & 0xFF) as u8,
        (s.length >> 8) as u8,
    ]
}

/// The 32-bit word four little-endian bytes carry.
pub open spec fn spec_word_of(b: Seq<u8>) -> u32 {
    (b[0] + 0x100 * b[1] + 0x10000 * b[2] + 0x1000000 * b[3]) as u32
}

impl SetupData {
    /// Serializes the header for the mailbox.
    pub fn to_bytes(&self) -> (r: Vec<u8>)
        ensures
            r@ == spec_setup_bytes(*self),
    {
        let mut v: Vec<u8> = Vec::new();
        v.push(self.request_type);
        v.push(self.request);
        v.push((self.value & 0xFF) as u8);
        v.push((self.value >> 8u16) as u8);
        v.push((self.index & 0xFF) as u8);
        v.push((self.index >> 8u16) as u8);
        v.push((self.length & 0xFF) as u8);
        v.push((self.length >> 8u16) as u8);
        proof {
            assert(v@ =~= spec_setup_bytes(*self));
        }
        v
    }
}

/// One operation on the flash channel, as recorded in its ghost log.
pub enum FlashOp {
    /// Programming `data` at `addr`.
    Program { addr: u32, data: Seq<u8> },
    /// Reading `len` bytes at `addr`; `reply` is what the device answered.
    Read { addr: u32, len: int, reply: Seq<u8> },
    /// A wait of this many milliseconds.
    Delay(int),
    /// A chip reset.
    Reset,
}

/// Programmed read/write access to the SPI-mapped flash that carries the
/// mailbox. The ghost model distinguishes the device's two reply streams
/// by address — status words answered at the mailbox (`word_replies`) and
/// payload-region reads (`data_replies`) — and records every operation
/// with its reply (`log`); a read fails once the device gives nothing
/// more or a reply of the wrong size.
pub trait FlashAccess: Sized {
    /// The replies the device will give to mailbox reads, oldest first.
    /// An implementation outside the verified world may leave the
    /// defaults, which model a device that answers nothing.
    open spec fn word_replies(&self) -> Seq<Seq<u8>> {
        Seq::empty()
    }

    /// The replies the device will give to payload-region reads, oldest
    /// first.
    open spec fn data_replies(&self) -> Seq<Seq<u8>> {
        Seq::empty()
    }

    /// The operations issued so far, oldest first.
    open spec fn log(&self) -> Seq<FlashOp> {
        Seq::empty()
    }

    /// Programs `data` at `addr`.
    fn program(&mut self, addr: u32, data: &[u8]) -> (r: Result<(), TransportError>)
        ensures
            final(self).word_replies() == old(self).word_replies(),
            final(self).data_replies() == old(self).data_replies(),
            match r {
                Ok(()) => final(self).log() == old(self).log() + seq![
                    FlashOp::Program { addr, data: data@ },
                ],
                Err(_) => final(self).log() == old(self).log(),
            },
    ;

    /// Reads exactly `len` bytes at `addr`, consuming the next reply of
    /// the stream the address selects.
    fn read(&mut self, addr: u32, len: usize) -> (r: Result<Vec<u8>, TransportError>)
        ensures
            match r {
                Ok(v) => v.len() == len && final(self).log() == old(self).log() + seq![
                    FlashOp::Read { addr, len: len as int, reply: v@ },
                ] && (if addr == MAILBOX {
                    old(self).word_replies().len() > 0 && v@ == old(self).word_replies()[0]
                        && final(self).word_replies() == old(self).word_replies().skip(1)
                        && final(self).data_replies() == old(self).data_replies()
                } else {
                    old(self).data_replies().len() > 0 && v@ == old(self).data_replies()[0]
                        && final(self).data_replies() == old(self).data_replies().skip(1)
                        && final(self).word_replies() == old(self).word_replies()
                }),
                Err(_) => final(self).word_replies() == old(self).word_replies()
                    && final(self).data_replies() == old(self).data_replies()
                    && final(self).log() == old(self).log(),
            },
    ;

    /// Waits at least `ms` milliseconds.
    fn delay_ms(&mut self, ms: u32) -> (r: Result<(), TransportError>)
        ensures
            final(self).word_replies() == old(self).word_replies(),
            final(self).data_replies() == old(self).data_replies(),
            match r {
                Ok(()) => final(self).log() == old(self).log() + seq![FlashOp::Delay(ms as int)],
                Err(_) => final(self).log() == old(self).log(),
            },
    ;

    /// Resets the chip, rebooting the device.
    fn chip_reset(&mut self) -> (r: Result<(), TransportError>)
        ensures
            final(self).word_replies() == old(self).word_replies(),
            final(self).data_replies() == old(self).data_replies(),
            match r {
                Ok(()) => final(self).log() == old(self).log() + seq![FlashOp::Reset],
                Err(_) => final(self).log() == old(self).log(),
            },
    ;
}

/// One recorded call on a scripted flash channel.
#[derive(Debug, Clone)]
pub enum FlashCall {
    Program(u32, Vec<u8>),
    Read(u32, usize, Vec<u8>),
    Delay(u32),
    Reset,
}

/// The ghost operation a recorded call stands for.
pub open spec fn flash_event(c: FlashCall) -> FlashOp {
    match c {
        FlashCall::Program(addr, v) => FlashOp::Program { addr, data: v@ },
        FlashCall::Read(addr, len, v) => FlashOp::Read { addr, len: len as int, reply: v@ },
        FlashCall::Delay(ms) => FlashOp::Delay(ms as int),
        FlashCall::Reset => FlashOp::Reset,
    }
}

/// A scripted flash channel: it answers mailbox reads from one fixed
/// reply script and payload-region reads from another, and records every
/// operation. It stands in for the SPI-mapped device when exercising the
/// mailbox emulation.
pub struct ScriptedFlash {
    words: Vec<Vec<u8>>,
    word_pos: usize,
    datas: Vec<Vec<u8>>,
    data_pos: usize,
    calls: Vec<FlashCall>,
}

impl ScriptedFlash {
    /// A channel that will answer mailbox reads with exactly `words` and
    /// payload-region reads with exactly `datas`.
    pub fn new(words: Vec<Vec<u8>>, datas: Vec<Vec<u8>>) -> (r: ScriptedFlash)
        ensures
            r.word_replies() == words.deep_view(),
            r.data_replies() == datas.deep_view(),
            r.log() == Seq::<FlashOp>::empty(),
    {
        let r = ScriptedFlash { words, word_pos: 0, datas, data_pos: 0, calls: Vec::new() };
        proof {
            assert(r.words.deep_view().skip(0) =~= r.words.deep_view());
            assert(r.datas.deep_view().skip(0) =~= r.datas.deep_view());
            assert(r.calls@.map(|i: int, c: FlashCall| flash_event(c)) =~= Seq::<FlashOp>::empty());
        }
        r
    }

    /// The operations issued so far.
    pub fn calls(&self) -> (r: &Vec<FlashCall>)
        ensures
            r@.map(|i: int, c: FlashCall| flash_event(c)) == self.log(),
    {
        &self.calls
    }

    proof fn lemma_log_push(pre: Seq<FlashCall>, c: FlashCall)
        ensures
            pre.push(c).map(|i: int, c2: FlashCall| flash_event(c2)) == pre.map(
                |i: int, c2: FlashCall| flash_event(c2),
            ) + seq![flash_event(c)],
    {
        assert(pre.push(c).map(|i: int, c2: FlashCall| flash_event(c2)) =~= pre.map(
            |i: int, c2: FlashCall| flash_event(c2),
        ) + seq![flash_event(c)]);
    }
}

impl FlashAccess for ScriptedFlash {
    closed spec fn word_replies(&self) -> Seq<Seq<u8>> {
        if self.word_pos <= self.words.deep_view().len() {
            self.words.deep_view().skip(self.word_pos as int)
        } else {
            Seq::empty()
        }
    }

    closed spec fn data_replies(&self) -> Seq<Seq<u8>> {
        if self.data_pos <= self.datas.deep_view().len() {
            self.datas.deep_view().skip(self.data_pos as int)
        } else {
            Seq::empty()
        }
    }

    closed spec fn log(&self) -> Seq<FlashOp> {
        self.calls@.map(|i: int, c: FlashCall| flash_event(c))
    }

    fn program(&mut self, addr: u32, data: &[u8]) -> (r: Result<(), TransportError>) {
        let mut copy: Vec<u8> = Vec::new();
        let mut i: usize = 0;
        while i < data.len()
            invariant
                i <= data.len(),
                copy@ == data@.take(i as int),
            decreases data.len() - i,
        {
            copy.push(data[i]);
            proof {
                assert(data@.take(i as int).push(data@[i as int]) =~= data@.take(i + 1));
            }
            i = i + 1;
        }
        proof {
            assert(copy@ =~= data@);
        }
        let ghost pre = self.calls@;
        self.calls.push(FlashCall::Program(addr, copy));
        proof {
            Self::lemma_log_push(pre, FlashCall::Program(addr, copy));
        }
        Ok(())
    }

    fn read(&mut self, addr: u32, len: usize) -> (r: Result<Vec<u8>, TransportError>) {
        let from_words = addr == MAILBOX;
        let (reply, pos) = if from_words {
            if self.word_pos >= self.words.len() {
                return Err(TransportError { message: "end of scripted replies".to_owned() });
            }
            (&self.words[self.word_pos], self.word_pos)
        } else {
            if self.data_pos >= self.datas.len() {
                return Err(TransportError { message: "end of scripted replies".to_owned() });
            }
            (&self.datas[self.data_pos], self.data_pos)
        };
        if reply.len() != len {
            return Err(TransportError { message: "scripted reply length mismatch".to_owned() });
        }
        let mut copy: Vec<u8> = Vec::new();
        let mut rec: Vec<u8> = Vec::new();
        let mut i: usize = 0;
        while i < reply.len()
            invariant
                i <= reply.len(),
                copy@ == reply@.take(i as int),
                rec@ == copy@,
                from_words ==> pos < self.words.len() && reply == &self.words[pos as int],
                !from_words ==> pos < self.datas.len() && reply == &self.datas[pos as int],
            decreases reply.len() - i,
        {
            copy.push(reply[i]);
            rec.push(reply[i]);
            proof {
                assert(reply@.take(i as int).push(reply@[i as int]) =~= reply@.take(i + 1));
            }
            i = i + 1;
        }
        proof {
            assert(copy@ =~= reply@);
        }
        if from_words {
            proof {
                assert(copy@ =~= self.words.deep_view()[self.word_pos as int]);
            }
            self.word_pos = self.word_pos + 1;
            proof {
                assert(old(self).words.deep_view().skip(old(self).word_pos as int).skip(1)
                    =~= self.words.deep_view().skip(self.word_pos as int));
            }
        } else {
            proof {
                assert(copy@ =~= self.datas.deep_view()[self.data_pos as int]);
            }
            self.data_pos = self.data_pos + 1;
            proof {
                assert(old(self).datas.deep_view().skip(old(self).data_pos as int).skip(1)
                    =~= self.datas.deep_view().skip(self.data_pos as int));
            }
        }
        let ghost pre = self.calls@;
        self.calls.push(FlashCall::Read(addr, len, rec));
        proof {
            Self::lemma_log_push(pre, FlashCall::Read(addr, len, rec));
        }
        Ok(copy)
    }

    fn delay_ms(&mut self, ms: u32) -> (r: Result<(), TransportError>) {
        // A scripted device advances its state instantly: there is nothing
        // to wait for, only the call is recorded.
        let ghost pre = self.calls@;
        self.calls.push(FlashCall::Delay(ms));
        proof {
            Self::lemma_log_push(pre, FlashCall::Delay(ms));
        }
        Ok(())
    }

    fn chip_reset(&mut self) -> (r: Result<(), TransportError>) {
        let ghost pre = self.calls@;
        self.calls.push(FlashCall::Reset);
        proof {
            Self::lemma_log_push(pre, FlashCall::Reset);
        }
        Ok(())
    }
}

/// A control-transfer failure over the mailbox.
#[derive(Debug)]
pub enum MailboxError {
    /// The payload does not fit the 16-bit length field of the setup
    /// header.
    TooLong,
    /// The transport cannot serve the requested mode.
    Mode(RescueMode),
    /// The device answered the setup with a non-success status word.
    Device(RomError),
    /// The flash channel failed.
    Transport(TransportError),
}

/// The setup header a control transfer programs for the given fields.
pub open spec fn spec_setup(
    request_type: u8,
    request: u8,
    value: u16,
    index: u16,
    length: u16,
) -> SetupData {
    SetupData { request_type, request, value, index, length }
}

/// The flash operations of a completed host-to-device transfer: setup
/// header into the mailbox, status word out, payload in.
pub open spec fn control_out_ops(
    request_type: u8,
    request: u8,
    value: u16,
    index: u16,
    data: Seq<u8>,
    word: Seq<u8>,
) -> Seq<FlashOp> {
    seq![
        FlashOp::Program {
            addr: MAILBOX,
            data: spec_setup_bytes(
                spec_setup(request_type, request, value, index, data.len() as u16),
            ),
        },
        FlashOp::Read { addr: MAILBOX, len: 4, reply: word },
        FlashOp::Program { addr: 0u32, data: data },
    ]
}

/// The flash operations of a completed device-to-host transfer: setup
/// header into the mailbox, status word out, payload out.
pub open spec fn control_in_ops(
    request_type: u8,
    request: u8,
    value: u16,
    index: u16,
    len: int,
    word: Seq<u8>,
    payload: Seq<u8>,
) -> Seq<FlashOp> {
    seq![
        FlashOp::Program {
            addr: MAILBOX,
            data: spec_setup_bytes(spec_setup(request_type, request, value, index, len as u16)),
        },
        FlashOp::Read { addr: MAILBOX, len: 4, reply: word },
        FlashOp::Read { addr: 0u32, len: len, reply: payload },
    ]
}

/// The first two of either sequence: what runs before the status gate.
pub open spec fn control_probe_ops(
    request_type: u8,
    request: u8,
    value: u16,
    index: u16,
    length: u16,
    word: Seq<u8>,
) -> Seq<FlashOp> {
    seq![
        FlashOp::Program {
            addr: MAILBOX,
            data: spec_setup_bytes(spec_setup(request_type, request, value, index, length)),
        },
        FlashOp::Read { addr: MAILBOX, len: 4, reply: word },
    ]
}

/// DFU-style control transfers emulated over the flash mailbox.
pub struct SpiDfu<F: FlashAccess> {
    /// The flash channel, owned for the duration of a session.
    pub flash: F,
    /// The claimed interface number carried in the setup's index field.
    pub interface: u8,
}

impl<F: FlashAccess> SpiDfu<F> {
    /// Takes ownership of the flash channel for one session.
    pub fn new(flash: F) -> (r: SpiDfu<F>)
        ensures
            r.flash == flash,
            r.interface == 0u8,
    {
        SpiDfu { flash, interface: 0 }
    }

    /// A host-to-device control transfer: programs the setup header into
    /// the mailbox, reads the four-byte status word, and programs the
    /// payload at address zero only when the word decodes as success.
    pub fn write_control(
        &mut self,
        request_type: u8,
        request: u8,
        value: u16,
        index: u16,
        data: &[u8],
    ) -> (r: Result<usize, MailboxError>)
        ensures
            final(self).interface == old(self).interface,
            match r {
                Ok(n) => n == data.len() && data.len() <= 0xFFFF
                    && old(self).flash.word_replies().len() > 0
                    && old(self).flash.word_replies()[0].len() == 4
                    && spec_word_of(old(self).flash.word_replies()[0]) == ROM_ERROR_OK
                    && final(self).flash.word_replies() == old(self).flash.word_replies().skip(1)
                    && final(self).flash.data_replies() == old(self).flash.data_replies()
                    && final(self).flash.log() == old(self).flash.log() + control_out_ops(
                    request_type,
                    request,
                    value,
                    index,
                    data@,
                    old(self).flash.word_replies()[0],
                ),
                Err(MailboxError::TooLong) => data.len() > 0xFFFF && final(self).flash.log()
                    == old(self).flash.log(),
                Err(MailboxError::Device(e)) => e.0 != ROM_ERROR_OK && data.len() <= 0xFFFF
                    && old(self).flash.word_replies().len() > 0
                    && spec_word_of(old(self).flash.word_replies()[0]) == e.0
                    && final(self).flash.word_replies() == old(self).flash.word_replies().skip(1)
                    && final(self).flash.data_replies() == old(self).flash.data_replies()
                    && final(self).flash.log() == old(self).flash.log() + control_probe_ops(
                    request_type,
                    request,
                    value,
                    index,
                    data.len() as u16,
                    old(self).flash.word_replies()[0],
                ),
                Err(MailboxError::Transport(_)) => true,
                Err(MailboxError::Mode(_)) => false,
            },
    {
        if data.len() > 0xFFFF {
            return Err(MailboxError::TooLong);
        }
        let setup = SetupData { request_type, request, value, index, length: data.len() as u16 };
        let setup_bytes = setup.to_bytes();
        match self.flash.program(MAILBOX, setup_bytes.as_slice()) {
            Ok(()) => {},
            Err(e) => return Err(MailboxError::Transport(e)),
        }
        let word_bytes = match self.flash.read(MAILBOX, 4) {
            Ok(v) => v,
            Err(e) => return Err(MailboxError::Transport(e)),
        };
        let word: u32 = (word_bytes[0] as u32) + 0x100 * (word_bytes[1] as u32) + 0x10000 * (
        word_bytes[2] as u32) + 0x1000000 * (word_bytes[3] as u32);
        if word != ROM_ERROR_OK {
            return Err(MailboxError::Device(RomError(word)));
        }
        match self.flash.program(0, data) {
            Ok(()) => {},
            Err(e) => return Err(MailboxError::Transport(e)),
        }
        Ok(data.len())
    }

    /// A device-to-host control transfer: programs the setup header, reads
    /// the status word, and reads the payload at address zero only when
    /// the word decodes as success.
    pub fn read_control(
        &mut self,
        request_type: u8,
        request: u8,
        value: u16,
        index: u16,
        len: usize,
    ) -> (r: Result<Vec<u8>, MailboxError>)
        ensures
            final(self).interface == old(self).interface,
            match r {
                Ok(v) => v.len() == len && len <= 0xFFFF
                    && old(self).flash.word_replies().len() > 0
                    && old(self).flash.word_replies()[0].len() == 4
                    && spec_word_of(old(self).flash.word_replies()[0]) == ROM_ERROR_OK
                    && old(self).flash.data_replies().len() > 0
                    && v@ == old(self).flash.data_replies()[0]
                    && final(self).flash.word_replies() == old(self).flash.word_replies().skip(1)
                    && final(self).flash.data_replies() == old(self).flash.data_replies().skip(1)
                    && final(self).flash.log() == old(self).flash.log() + control_in_ops(
                    request_type,
                    request,
                    value,
                    index,
                    len as int,
                    old(self).flash.word_replies()[0],
                    old(self).flash.data_replies()[0],
                ),
                Err(MailboxError::TooLong) => len > 0xFFFF && final(self).flash.log() == old(
                    self,
                ).flash.log(),
                Err(MailboxError::Device(e)) => e.0 != ROM_ERROR_OK && len <= 0xFFFF
                    && old(self).flash.word_replies().len() > 0
                    && spec_word_of(old(self).flash.word_replies()[0]) == e.0
                    && final(self).flash.word_replies() == old(self).flash.word_replies().skip(1)
                    && final(self).flash.data_replies() == old(self).flash.data_replies()
                    && final(self).flash.log() == old(self).flash.log() + control_probe_ops(
                    request_type,
                    request,
                    value,
                    index,
                    len as u16,
                    old(self).flash.word_replies()[0],
                ),
                Err(MailboxError::Transport(_)) => true,
                Err(MailboxError::Mode(_)) => false,
            },
    {
        if len > 0xFFFF {
            return Err(MailboxError::TooLong);
        }
        let setup = SetupData { request_type, request, value, index, length: len as u16 };
        let setup_bytes = setup.to_bytes();
        match self.flash.program(MAILBOX, setup_bytes.as_slice()) {
            Ok(()) => {},
            Err(e) => return Err(MailboxError::Transport(e)),
        }
        let word_bytes = match self.flash.read(MAILBOX, 4) {
            Ok(v) => v,
            Err(e) => return Err(MailboxError::Transport(e)),
        };
        let word: u32 = (word_bytes[0] as u32) + 0x100 * (word_bytes[1] as u32) + 0x10000 * (
        word_bytes[2] as u32) + 0x1000000 * (word_bytes[3] as u32);
        if word != ROM_ERROR_OK {
            return Err(MailboxError::Device(RomError(word)));
        }
        match self.flash.read(0, len) {
            Ok(v) => Ok(v),
            Err(e) => Err(MailboxError::Transport(e)),
        }
    }

    /// Selects a rescue mode: a vendor control write whose value and index
    /// fields carry the 32-bit mode-identity code, high half first. An
    /// unsupported mode is refused before anything touches the wire.
    pub fn set_mode(&mut self, mode: RescueMode) -> (r: Result<(), MailboxError>)
        ensures
            final(self).interface == old(self).interface,
            match r {
                Ok(()) => spec_spi_selector(mode) is Some && final(self).flash.log() == old(
                    self,
                ).flash.log() + control_out_ops(
                    0x40,
                    0x0b,
                    (spec_spi_selector(mode)->0 >> 16) as u16,
                    spec_spi_selector(mode)->0 as u16,
                    Seq::empty(),
                    old(self).flash.word_replies()[0],
                ),
                Err(MailboxError::Mode(m)) => spec_spi_selector(mode) is None && m == mode
                    && final(self).flash.log() == old(self).flash.log(),
                Err(MailboxError::TooLong) => false,
                Err(MailboxError::Device(e)) => e.0 != ROM_ERROR_OK,
                Err(MailboxError::Transport(_)) => true,
            },
    {
        let setting: u32 = match ModeMapper::spi_selector(mode) {
            Ok(s) => s,
            Err(RescueError::BadMode(m)) => {
                return Err(MailboxError::Mode(m));
            },
        };
        let value: u16 = (setting >> 16u32) as u16;
        let index: u16 = #[verifier::truncate] (setting as u16);
        let empty: Vec<u8> = Vec::new();
        match self.write_control(0x40, 0x0b, value, index, empty.as_slice()) {
            Ok(_) => {
                proof {
                    assert(empty@ =~= Seq::<u8>::empty());
                }
                Ok(())
            },
            Err(e) => Err(e),
        }
    }

    /// Reboots the device through a chip reset.
    pub fn reboot(&mut self) -> (r: Result<(), TransportError>)
        ensures
            final(self).interface == old(self).interface,
            final(self).flash.word_replies() == old(self).flash.word_replies(),
            final(self).flash.data_replies() == old(self).flash.data_replies(),
            match r {
                Ok(()) => final(self).flash.log() == old(self).flash.log() + seq![FlashOp::Reset],
                Err(_) => final(self).flash.log() == old(self).flash.log(),
            },
    {
        self.flash.chip_reset()
    }

    /// Download request: a class OUT transfer carrying the chunk.
    pub fn download(&mut self, data: &[u8]) -> (r: Result<usize, MailboxError>)
        ensures
            final(self).interface == old(self).interface,
            match r {
                Ok(n) => n == data.len() && data.len() <= 0xFFFF
                    && old(self).flash.word_replies().len() > 0
                    && old(self).flash.word_replies()[0].len() == 4
                    && spec_word_of(old(self).flash.word_replies()[0]) == ROM_ERROR_OK
                    && final(self).flash.word_replies() == old(self).flash.word_replies().skip(1)
                    && final(self).flash.data_replies() == old(self).flash.data_replies()
                    && final(self).flash.log() == old(self).flash.log() + control_out_ops(
                    0x21,
                    1,
                    0,
                    old(self).interface as u16,
                    data@,
                    old(self).flash.word_replies()[0],
                ),
                Err(MailboxError::TooLong) => data.len() > 0xFFFF && final(self).flash.log()
                    == old(self).flash.log(),
                Err(MailboxError::Device(e)) => e.0 != ROM_ERROR_OK
                    && old(self).flash.word_replies().len() > 0
                    && spec_word_of(old(self).flash.word_replies()[0]) == e.0
                    && final(self).flash.word_replies() == old(self).flash.word_replies().skip(1)
                    && final(self).flash.data_replies() == old(self).flash.data_replies()
                    && final(self).flash.log() == old(self).flash.log() + control_probe_ops(
                    0x21,
                    1,
                    0,
                    old(self).interface as u16,
                    data.len() as u16,
                    old(self).flash.word_replies()[0],
                ),
                Err(MailboxError::Transport(_)) => true,
                Err(MailboxError::Mode(_)) => false,
            },
    {
        let idx = self.interface as u16;
        self.write_control(0x21, 1, 0, idx, data)
    }

    /// Upload request: a class IN transfer into a buffer of `len` bytes;
    /// returns exactly what the device handed back.
    pub fn upload(&mut self, len: usize) -> (r: Result<Vec<u8>, MailboxError>)
        ensures
            final(self).interface == old(self).interface,
            match r {
                Ok(v) => v.len() == len && len <= 0xFFFF
                    && old(self).flash.word_replies().len() > 0
                    && old(self).flash.word_replies()[0].len() == 4
                    && spec_word_of(old(self).flash.word_replies()[0]) == ROM_ERROR_OK
                    && old(self).flash.data_replies().len() > 0
                    && v@ == old(self).flash.data_replies()[0]
                    && final(self).flash.word_replies() == old(self).flash.word_replies().skip(1)
                    && final(self).flash.data_replies() == old(self).flash.data_replies().skip(1)
                    && final(self).flash.log() == old(self).flash.log() + control_in_ops(
                    0xA1,
                    2,
                    0,
                    old(self).interface as u16,
                    len as int,
                    old(self).flash.word_replies()[0],
                    old(self).flash.data_replies()[0],
                ),
                Err(_) => true,
            },
    {
        let idx = self.interface as u16;
        self.read_control(0xA1, 2, 0, idx, len)
    }

    /// State query: a one-byte class IN transfer.
    pub fn get_state(&mut self) -> (r: Result<DfuState, MailboxError>)
        ensures
            final(self).interface == old(self).interface,
            match r {
                Ok(st) => old(self).flash.word_replies().len() > 0
                    && old(self).flash.word_replies()[0].len() == 4
                    && spec_word_of(old(self).flash.word_replies()[0]) == ROM_ERROR_OK
                    && old(self).flash.data_replies().len() > 0
                    && old(self).flash.data_replies()[0].len() == 1 && st == spec_state_of(
                    old(self).flash.data_replies()[0][0],
                ) && final(self).flash.word_replies() == old(self).flash.word_replies().skip(1)
                    && final(self).flash.data_replies() == old(self).flash.data_replies().skip(1)
                    && final(self).flash.log() == old(self).flash.log() + control_in_ops(
                    0xA1,
                    5,
                    0,
                    old(self).interface as u16,
                    1,
                    old(self).flash.word_replies()[0],
                    old(self).flash.data_replies()[0],
                ),
                Err(_) => true,
            },
    {
        let idx = self.interface as u16;
        let v = match self.read_control(0xA1, 5, 0, idx, 1) {
            Ok(v) => v,
            Err(e) => return Err(e),
        };
        Ok(DfuState::from_byte(v[0]))
    }

    /// Status query: a six-byte class IN transfer decoded as a status
    /// record.
    pub fn get_status(&mut self) -> (r: Result<DfuStatus, MailboxError>)
        ensures
            final(self).interface == old(self).interface,
            match r {
                Ok(st) => old(self).flash.word_replies().len() > 0
                    && old(self).flash.word_replies()[0].len() == 4
                    && spec_word_of(old(self).flash.word_replies()[0]) == ROM_ERROR_OK
                    && old(self).flash.data_replies().len() > 0
                    && old(self).flash.data_replies()[0].len() == 6 && st == spec_status_of(
                    old(self).flash.data_replies()[0],
                ) && final(self).flash.word_replies() == old(self).flash.word_replies().skip(1)
                    && final(self).flash.data_replies() == old(self).flash.data_replies().skip(1)
                    && final(self).flash.log() == old(self).flash.log() + control_in_ops(
                    0xA1,
                    3,
                    0,
                    old(self).interface as u16,
                    6,
                    old(self).flash.word_replies()[0],
                    old(self).flash.data_replies()[0],
                ),
                Err(_) => true,
            },
    {
        let idx = self.interface as u16;
        let v = match self.read_control(0xA1, 3, 0, idx, 6) {
            Ok(v) => v,
            Err(e) => return Err(e),
        };
        Ok(DfuStatus::from_bytes(v.as_slice()))
    }

    /// Clears a device-reported error status.
    pub fn clear_status(&mut self) -> (r: Result<(), MailboxError>)
        ensures
            final(self).interface == old(self).interface,
            match r {
                Ok(()) => old(self).flash.word_replies().len() > 0
                    && spec_word_of(old(self).flash.word_replies()[0]) == ROM_ERROR_OK
                    && final(self).flash.word_replies() == old(self).flash.word_replies().skip(1)
                    && final(self).flash.data_replies() == old(self).flash.data_replies()
                    && final(self).flash.log() == old(self).flash.log() + control_out_ops(
                    0x21,
                    4,
                    0,
                    old(self).interface as u16,
                    Seq::empty(),
                    old(self).flash.word_replies()[0],
                ),
                Err(_) => true,
            },
    {
        let idx = self.interface as u16;
        let empty: Vec<u8> = Vec::new();
        match self.write_control(0x21, 4, 0, idx, empty.as_slice()) {
            Ok(_) => {
                proof {
                    assert(empty@ =~= Seq::<u8>::empty());
                }
                Ok(())
            },
            Err(e) => Err(e),
        }
    }

    /// Aborts the current transfer phase: a zero-length class OUT
    /// transfer with the abort request code.
    pub fn abort(&mut self) -> (r: Result<(), MailboxError>)
        ensures
            final(self).interface == old(self).interface,
            match r {
                Ok(()) => old(self).flash.word_replies().len() > 0
                    && spec_word_of(old(self).flash.word_replies()[0]) == ROM_ERROR_OK
                    && final(self).flash.word_replies() == old(self).flash.word_replies().skip(1)
                    && final(self).flash.data_replies() == old(self).flash.data_replies()
                    && final(self).flash.log() == old(self).flash.log() + control_out_ops(
                    0x21,
                    6,
                    0,
                    old(self).interface as u16,
                    Seq::empty(),
                    old(self).flash.word_replies()[0],
                ),
                Err(_) => true,
            },
    {
        let idx = self.interface as u16;
        let empty: Vec<u8> = Vec::new();
        match self.write_control(0x21, 6, 0, idx, empty.as_slice()) {
            Ok(_) => {
                proof {
                    assert(empty@ =~= Seq::<u8>::empty());
                }
                Ok(())
            },
            Err(e) => Err(e),
        }
    }
}

/// The DFU operation a completed host-to-device group stands for, if
/// any: a vendor or unrecognized setup stands for none.
pub open spec fn out_group_event(setup: Seq<u8>, data: Seq<u8>) -> Option<DfuEvent> {
    if setup.len() == 8 && setup[0] == 0x21 {
        if setup[1] == 1 {
            Some(DfuEvent::Download(data))
        } else if setup[1] == 4 {
            Some(DfuEvent::ClearStatus)
        } else if setup[1] == 6 {
            Some(DfuEvent::Abort)
        } else {
            None
        }
    } else {
        None
    }
}

/// The DFU operation a completed device-to-host group stands for, if
/// any.
pub open spec fn in_group_event(setup: Seq<u8>, len: int, reply: Seq<u8>) -> Option<DfuEvent> {
    if setup.len() == 8 && setup[0] == 0xA1 {
        if setup[1] == 3 {
            Some(DfuEvent::GetStatus)
        } else if setup[1] == 2 {
            Some(DfuEvent::Upload { max: len, reply })
        } else if setup[1] == 5 {
            Some(DfuEvent::GetState)
        } else {
            None
        }
    } else {
        None
    }
}

/// The DFU operation the last three flash operations stand for, when
/// they form a completed transfer group: a setup programmed into the
/// mailbox, the status word read, and the payload programmed or read at
/// address zero.
pub open spec fn tail_group_event(log: Seq<FlashOp>) -> Option<DfuEvent> {
    let n = log.len() as int;
    if n >= 3 {
        match (log[n - 3], log[n - 2], log[n - 1]) {
            (
                FlashOp::Program { addr: a3, data: setup },
                FlashOp::Read { addr: a2, len: l2, reply: _w },
                FlashOp::Program { addr: a1, data: payload },
            ) => {
                if a3 == MAILBOX && a2 == MAILBOX && l2 == 4 && a1 == 0 {
                    out_group_event(setup, payload)
                } else {
                    None
                }
            },
            (
                FlashOp::Program { addr: a3, data: setup },
                FlashOp::Read { addr: a2, len: l2, reply: _w },
                FlashOp::Read { addr: a1, len: l1, reply: payload },
            ) => {
                if a3 == MAILBOX && a2 == MAILBOX && l2 == 4 && a1 == 0 {
                    in_group_event(setup, l1, payload)
                } else {
                    None
                }
            },
            _ => None,
        }
    } else {
        None
    }
}

/// The DFU operations a flash log records, parsed from its end: a
/// completed transfer group yields its operation, a wait or a reset
/// yields its own, and anything else — dangling setups and probes of
/// failed transfers, mode selections — yields none.
pub open spec fn dfu_events_of_flash(log: Seq<FlashOp>) -> Seq<DfuEvent>
    decreases log.len(),
{
    if log.len() == 0 {
        Seq::empty()
    } else {
        match tail_group_event(log) {
            Some(e) => dfu_events_of_flash(log.take(log.len() - 3)) + seq![e],
            None => {
                let rest = dfu_events_of_flash(log.take(log.len() - 1));
                match log.last() {
                    FlashOp::Delay(ms) => rest + seq![DfuEvent::Delay(ms)],
                    FlashOp::Reset => rest + seq![DfuEvent::Reboot],
                    _ => rest,
                }
            },
        }
    }
}

proof fn lemma_flash_events_group(pre: Seq<FlashOp>, g: Seq<FlashOp>, e: DfuEvent)
    requires
        g.len() == 3,
        tail_group_event(pre + g) == Some(e),
    ensures
        dfu_events_of_flash(pre + g) == dfu_events_of_flash(pre) + seq![e],
{
    assert((pre + g).take((pre + g).len() - 3) =~= pre);
}

proof fn lemma_flash_events_delay(pre: Seq<FlashOp>, ms: int)
    ensures
        dfu_events_of_flash(pre + seq![FlashOp::Delay(ms)]) == dfu_events_of_flash(pre) + seq![
            DfuEvent::Delay(ms),
        ],
{
    let full = pre + seq![FlashOp::Delay(ms)];
    assert(full.last() == FlashOp::Delay(ms));
    assert(tail_group_event(full) is None);
    assert(full.take(full.len() - 1) =~= pre);
}

proof fn lemma_flash_events_reset(pre: Seq<FlashOp>)
    ensures
        dfu_events_of_flash(pre + seq![FlashOp::Reset]) == dfu_events_of_flash(pre) + seq![
            DfuEvent::Reboot,
        ],
{
    let full = pre + seq![FlashOp::Reset];
    assert(full.last() == FlashOp::Reset);
    assert(tail_group_event(full) is None);
    assert(full.take(full.len() - 1) =~= pre);
}

impl MailboxError {
    /// Renders this failure as an opaque channel failure, for callers
    /// that treat the mailbox as a plain control-transfer primitive.
    pub fn into_transport(self) -> (r: TransportError) {
        match self {
            MailboxError::Transport(t) => t,
            MailboxError::Device(_) => TransportError {
                message: "device refused the transfer".to_owned(),
            },
            MailboxError::TooLong => TransportError { message: "payload too long".to_owned() },
            MailboxError::Mode(_) => TransportError { message: "mode not supported".to_owned() },
        }
    }
}

/// The mailbox emulation is itself a DFU-capable backend for the
/// transfer orchestrator: its status script is the payload-reply stream
/// decoded as records, its operation log the flash log with the completed
/// transfer groups picked out.
impl<F: FlashAccess> DfuOperations for SpiDfu<F> {
    open spec fn pending(&self) -> Seq<DfuStatus> {
        statuses_of(self.flash.data_replies())
    }

    open spec fn log(&self) -> Seq<DfuEvent> {
        dfu_events_of_flash(self.flash.log())
    }

    fn download(&mut self, data: &[u8]) -> (r: Result<usize, TransportError>) {
        let ghost pre = self.flash.log();
        match SpiDfu::download(self, data) {
            Ok(n) => {
                proof {
                    let g = control_out_ops(
                        0x21,
                        1,
                        0,
                        old(self).interface as u16,
                        data@,
                        old(self).flash.word_replies()[0],
                    );
                    assert(tail_group_event(pre + g) == Some(DfuEvent::Download(data@)));
                    lemma_flash_events_group(pre, g, DfuEvent::Download(data@));
                }
                Ok(n)
            },
            Err(e) => Err(e.into_transport()),
        }
    }

    fn upload(&mut self, max: usize) -> (r: Result<Vec<u8>, TransportError>) {
        let ghost pre = self.flash.log();
        match SpiDfu::upload(self, max) {
            Ok(v) => {
                proof {
                    let g = control_in_ops(
                        0xA1,
                        2,
                        0,
                        old(self).interface as u16,
                        max as int,
                        old(self).flash.word_replies()[0],
                        old(self).flash.data_replies()[0],
                    );
                    let e = DfuEvent::Upload { max: max as int, reply: v@ };
                    assert(tail_group_event(pre + g) == Some(e));
                    lemma_flash_events_group(pre, g, e);
                }
                Ok(v)
            },
            Err(e) => Err(e.into_transport()),
        }
    }

    fn get_state(&mut self) -> (r: Result<DfuState, TransportError>) {
        let ghost pre = self.flash.log();
        match SpiDfu::get_state(self) {
            Ok(st) => {
                proof {
                    let g = control_in_ops(
                        0xA1,
                        5,
                        0,
                        old(self).interface as u16,
                        1,
                        old(self).flash.word_replies()[0],
                        old(self).flash.data_replies()[0],
                    );
                    assert(tail_group_event(pre + g) == Some(DfuEvent::GetState));
                    lemma_flash_events_group(pre, g, DfuEvent::GetState);
                }
                Ok(st)
            },
            Err(e) => Err(e.into_transport()),
        }
    }

    fn get_status(&mut self) -> (r: Result<DfuStatus, TransportError>) {
        let ghost pre = self.flash.log();
        let ghost datas0 = self.flash.data_replies();
        match SpiDfu::get_status(self) {
            Ok(st) => {
                proof {
                    let g = control_in_ops(
                        0xA1,
                        3,
                        0,
                        old(self).interface as u16,
                        6,
                        old(self).flash.word_replies()[0],
                        datas0[0],
                    );
                    assert(tail_group_event(pre + g) == Some(DfuEvent::GetStatus));
                    lemma_flash_events_group(pre, g, DfuEvent::GetStatus);
                    lemma_statuses_of_skip(datas0, 1);
                }
                Ok(st)
            },
            Err(e) => Err(e.into_transport()),
        }
    }

    fn clear_status(&mut self) -> (r: Result<(), TransportError>) {
        let ghost pre = self.flash.log();
        match SpiDfu::clear_status(self) {
            Ok(()) => {
                proof {
                    let g = control_out_ops(
                        0x21,
                        4,
                        0,
                        old(self).interface as u16,
                        Seq::empty(),
                        old(self).flash.word_replies()[0],
                    );
                    assert(tail_group_event(pre + g) == Some(DfuEvent::ClearStatus));
                    lemma_flash_events_group(pre, g, DfuEvent::ClearStatus);
                }
                Ok(())
            },
            Err(e) => Err(e.into_transport()),
        }
    }

    fn abort(&mut self) -> (r: Result<(), TransportError>) {
        let ghost pre = self.flash.log();
        match SpiDfu::abort(self) {
            Ok(()) => {
                proof {
                    let g = control_out_ops(
                        0x21,
                        6,
                        0,
                        old(self).interface as u16,
                        Seq::empty(),
                        old(self).flash.word_replies()[0],
                    );
                    assert(tail_group_event(pre + g) == Some(DfuEvent::Abort));
                    lemma_flash_events_group(pre, g, DfuEvent::Abort);
                }
                Ok(())
            },
            Err(e) => Err(e.into_transport()),
        }
    }

    fn delay_ms(&mut self, ms: u32) -> (r: Result<(), TransportError>) {
        let ghost pre = self.flash.log();
        let r = self.flash.delay_ms(ms);
        proof {
            if r is Ok {
                lemma_flash_events_delay(pre, ms as int);
            }
        }
        r
    }

    fn reboot(&mut self) -> (r: Result<(), TransportError>) {
        let ghost pre = self.flash.log();
        let r = SpiDfu::reboot(self);
        proof {
            if r is Ok {
                lemma_flash_events_reset(pre);
            }
        }
        r
    }
}

} // verus!

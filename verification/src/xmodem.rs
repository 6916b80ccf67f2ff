//! XMODEM-CRC engine: frames a byte stream into checksummed blocks and
//! drives the send and receive handshakes over a byte-oriented transport.
//!
//! The wire behaviour of each handshake is captured by a recursive model
//! over the sequence of bytes the peer delivers (`start_run`, `data_run`,
//! `recv_run`); the engines are proved to follow that model exactly, for
//! every delivery the peer can make.

use crate::crc::crc16;
use crate::crc::crc16_of;
use crate::transport::ByteTransport;
use crate::transport::TransportError;
use vstd::prelude::*;

verus! {

/// Start-of-header byte announcing a 128-byte block.
pub const SOH: u8 = 0x01;

/// Start-of-header byte announcing a 1024-byte block.
pub const STX: u8 = 0x02;

/// End-of-transfer byte.
pub const EOF: u8 = 0x04;

/// Positive acknowledgment.
pub const ACK: u8 = 0x06;

/// Negative acknowledgment; also the checksum-mode solicitation.
pub const NAK: u8 = 0x15;

/// Cancel byte; two in a row abort the transfer.
pub const CAN: u8 = 0x18;

/// Solicitation byte for CRC framing.
pub const CRC_MODE: u8 = 0x43;

/// Why a requested or announced mode is unsupported; carries the
/// offending value for diagnosis.
#[derive(Clone, Copy, Debug, PartialEq, Eq, Structural)]
pub enum UnsupportedReason {
    /// The peer demanded checksum-only framing.
    ChecksumOnly,
    /// The configured payload length; only 128 and 1024 are implemented.
    BlockLength(usize),
    /// The offending first byte of an incoming frame.
    PacketStart(u8),
}

/// A terminal protocol failure.
#[derive(Debug)]
pub enum XmodemError {
    /// The peer sent two consecutive cancel bytes.
    Cancelled,
    /// The bounded-retry ceiling was crossed; carries the error count.
    ExhaustedRetries(usize),
    /// The peer requested, or a frame announced, a mode this engine does
    /// not implement.
    UnsupportedMode(UnsupportedReason),
    /// The underlying channel failed; never retried here.
    Transport(TransportError),
}

/// XMODEM-CRC engine configuration.
#[derive(Debug)]
pub struct Xmodem {
    /// Retry ceiling: the transfer fails once the error count exceeds it.
    pub max_errors: usize,
    /// Fill value for a short final block.
    pub pad_byte: u8,
    /// Payload bytes per block: 128 or 1024.
    pub block_len: usize,
}

/// How a modelled protocol run ends.
pub enum ProtoStatus {
    /// The handshake ran to completion.
    Completed,
    /// Two consecutive cancel bytes arrived.
    Cancelled,
    /// The error count crossed the retry ceiling; carries the count.
    Exhausted(int),
    /// The peer asked for, or announced, an unsupported mode; carries
    /// the offending value.
    Unsupported(UnsupportedReason),
    /// The peer's delivery ran out before the handshake concluded; the
    /// engine reports the channel failure it observes at that point.
    Starved,
}

/// Outcome of the modelled wait for the start byte.
pub struct StartRun {
    pub status: ProtoStatus,
    /// Peer bytes consumed.
    pub used: int,
}

/// Outcome of a modelled send run.
pub struct SendRun {
    pub status: ProtoStatus,
    /// Every byte the sender writes, in order.
    pub wire: Seq<u8>,
    /// Peer bytes consumed.
    pub used: int,
}

/// Outcome of a modelled receive run.
pub struct RecvRun {
    pub status: ProtoStatus,
    /// Payload bytes accepted into the sink, in order.
    pub data: Seq<u8>,
    /// Every response byte the receiver writes after the solicitation.
    pub resp: Seq<u8>,
}

/// The engine supports 128- and 1024-byte blocks only.
pub open spec fn valid_block_len(block_len: int) -> bool {
    block_len == 128 || block_len == 1024
}

/// Header byte announcing a block of `block_len` payload bytes.
pub open spec fn header_for(block_len: int) -> u8 {
    if block_len == 128 {
        SOH
    } else {
        STX
    }
}

/// Block numbers start at 1 and wrap modulo 256.
pub open spec fn next_num(n: u8) -> u8 {
    if n == 255 {
        0
    } else {
        (n + 1) as u8
    }
}

/// End of the chunk that starts at `off`.
pub open spec fn chunk_end(data: Seq<u8>, off: int, block_len: int) -> int {
    if off + block_len <= data.len() {
        off + block_len
    } else {
        data.len() as int
    }
}

/// The (possibly short) chunk of source data that starts at `off`.
pub open spec fn chunk_at(data: Seq<u8>, off: int, block_len: int) -> Seq<u8> {
    data.subrange(off, chunk_end(data, off, block_len))
}

/// `chunk` filled to `block_len` bytes with the pad byte.
pub open spec fn padded(chunk: Seq<u8>, pad: u8, block_len: int) -> Seq<u8> {
    chunk + Seq::new((block_len - chunk.len()) as nat, |i: int| pad)
}

/// One block frame: header, block number, its complement, padded payload,
/// and the payload's CRC-16 big-endian.
pub open spec fn frame_bytes(block_len: int, pad: u8, num: u8, chunk: Seq<u8>) -> Seq<u8> {
    let payload = padded(chunk, pad, block_len);
    let c = crc16_of(payload);
    seq![header_for(block_len), num, (255 - num) as u8] + payload + seq![
        (c >> 8) as u8,
        (c & 0xFF) as u8,
    ]
}

/// The sender's wait for the CRC-mode start byte, as a function of the
/// bytes the peer delivers. Unrecognized bytes are skipped; a NAK demands
/// checksum-only framing (unsupported); two consecutive cancels abort.
pub open spec fn start_run(s: Seq<u8>, cancels: int) -> StartRun
    decreases s.len(),
{
    if s.len() == 0 {
        StartRun { status: ProtoStatus::Starved, used: 0 }
    } else if s[0] == CRC_MODE {
        StartRun { status: ProtoStatus::Completed, used: 1 }
    } else if s[0] == NAK {
        StartRun { status: ProtoStatus::Unsupported(UnsupportedReason::ChecksumOnly), used: 1 }
    } else if s[0] == CAN {
        if cancels + 1 >= 2 {
            StartRun { status: ProtoStatus::Cancelled, used: 1 }
        } else {
            let rec = start_run(s.skip(1), cancels + 1);
            StartRun { status: rec.status, used: 1 + rec.used }
        }
    } else {
        let rec = start_run(s.skip(1), 0);
        StartRun { status: rec.status, used: 1 + rec.used }
    }
}

/// The sender's data phase, as a function of the response bytes the peer
/// delivers. Each step writes the frame for the chunk at `off` and reads
/// one response: ACK advances, a cancel pair aborts, anything else counts
/// an error and resends the same frame.
pub open spec fn data_run(
    max_errors: int,
    pad: u8,
    block_len: int,
    data: Seq<u8>,
    off: int,
    num: u8,
    errors: int,
    cancels: int,
    s: Seq<u8>,
) -> SendRun
    decreases s.len(),
{
    if off >= data.len() {
        SendRun { status: ProtoStatus::Completed, wire: Seq::empty(), used: 0 }
    } else if !valid_block_len(block_len) {
        SendRun {
            status: ProtoStatus::Unsupported(UnsupportedReason::BlockLength(block_len as usize)),
            wire: Seq::empty(),
            used: 0,
        }
    } else {
        let fr = frame_bytes(block_len, pad, num, chunk_at(data, off, block_len));
        if s.len() == 0 {
            SendRun { status: ProtoStatus::Starved, wire: fr, used: 0 }
        } else if s[0] == ACK {
            let rec = data_run(
                max_errors,
                pad,
                block_len,
                data,
                off + block_len,
                next_num(num),
                errors,
                0,
                s.skip(1),
            );
            SendRun { status: rec.status, wire: fr + rec.wire, used: 1 + rec.used }
        } else if s[0] == CAN {
            if cancels + 1 >= 2 {
                SendRun { status: ProtoStatus::Cancelled, wire: fr, used: 1 }
            } else {
                let rec = data_run(
                    max_errors,
                    pad,
                    block_len,
                    data,
                    off,
                    num,
                    errors,
                    cancels + 1,
                    s.skip(1),
                );
                SendRun { status: rec.status, wire: fr + rec.wire, used: 1 + rec.used }
            }
        } else {
            if errors + 1 > max_errors {
                SendRun { status: ProtoStatus::Exhausted(errors + 1), wire: fr, used: 1 }
            } else {
                let rec = data_run(
                    max_errors,
                    pad,
                    block_len,
                    data,
                    off,
                    num,
                    errors + 1,
                    0,
                    s.skip(1),
                );
                SendRun { status: rec.status, wire: fr + rec.wire, used: 1 + rec.used }
            }
        }
    }
}

/// A whole send run: start wait, data phase, then the end-of-transfer byte
/// and its (unchecked) response.
pub open spec fn send_model(
    max_errors: int,
    pad: u8,
    block_len: int,
    data: Seq<u8>,
    s: Seq<u8>,
) -> SendRun {
    let st = start_run(s, 0);
    if !(st.status is Completed) {
        SendRun { status: st.status, wire: Seq::empty(), used: st.used }
    } else {
        let d = data_run(max_errors, pad, block_len, data, 0, 1, 0, 0, s.skip(st.used));
        if !(d.status is Completed) {
            SendRun { status: d.status, wire: d.wire, used: st.used + d.used }
        } else if s.len() == st.used + d.used {
            SendRun {
                status: ProtoStatus::Starved,
                wire: d.wire + seq![EOF],
                used: st.used + d.used,
            }
        } else {
            SendRun {
                status: ProtoStatus::Completed,
                wire: d.wire + seq![EOF],
                used: st.used + d.used + 1,
            }
        }
    }
}

/// The receive handshake, as a function of the bytes the sender delivers.
/// Each step decodes one full frame before acting on it: a block-number
/// mismatch cancels (after the frame is drained), a checksum mismatch is
/// answered with NAK and counted, a good frame is acknowledged and kept.
pub open spec fn recv_run(max_errors: int, num: u8, errors: int, s: Seq<u8>) -> RecvRun
    decreases s.len(),
{
    if s.len() == 0 {
        RecvRun { status: ProtoStatus::Starved, data: Seq::empty(), resp: Seq::empty() }
    } else if s[0] == EOF {
        RecvRun { status: ProtoStatus::Completed, data: Seq::empty(), resp: seq![ACK] }
    } else if s[0] != SOH && s[0] != STX {
        RecvRun {
            status: ProtoStatus::Unsupported(UnsupportedReason::PacketStart(s[0])),
            data: Seq::empty(),
            resp: Seq::empty(),
        }
    } else {
        let bl: int = if s[0] == SOH {
            128
        } else {
            1024
        };
        if s.len() < 5 + bl {
            RecvRun { status: ProtoStatus::Starved, data: Seq::empty(), resp: Seq::empty() }
        } else {
            let bnum = s[1];
            let bcom = s[2];
            let payload = s.subrange(3, 3 + bl);
            let crc = ((s[3 + bl] as u16) << 8) | (s[4 + bl] as u16);
            if bnum != num || bnum != 255 - bcom {
                RecvRun { status: ProtoStatus::Cancelled, data: Seq::empty(), resp: seq![CAN, CAN] }
            } else if crc16_of(payload) == crc {
                let rec = recv_run(max_errors, next_num(num), errors, s.skip(5 + bl));
                RecvRun { status: rec.status, data: payload + rec.data, resp: seq![ACK] + rec.resp }
            } else {
                if errors + 1 > max_errors {
                    RecvRun {
                        status: ProtoStatus::Exhausted(errors + 1),
                        data: Seq::empty(),
                        resp: seq![NAK],
                    }
                } else {
                    let rec = recv_run(max_errors, num, errors + 1, s.skip(5 + bl));
                    RecvRun { status: rec.status, data: rec.data, resp: seq![NAK] + rec.resp }
                }
            }
        }
    }
}

impl Xmodem {
    /// The default configuration: 16 retries, `0xFF` padding, 1024-byte
    /// blocks.
    pub fn new() -> (r: Xmodem)
        ensures
            r.max_errors == 16,
            r.pad_byte == 0xFF,
            r.block_len == 1024,
    {
        Xmodem { max_errors: 16, pad_byte: 0xFF, block_len: 1024 }
    }

    /// Builds the frame for `chunk` as block `num`: header, block number,
    /// complement, padded payload, CRC-16 big-endian.
    fn build_frame(&self, num: u8, chunk: &[u8]) -> (r: Vec<u8>)
        requires
            valid_block_len(self.block_len as int),
            chunk.len() <= self.block_len,
        ensures
            r@ == frame_bytes(self.block_len as int, self.pad_byte, num, chunk@),
    {
        let mut payload: Vec<u8> = Vec::new();
        let mut i: usize = 0;
        while i < chunk.len()
            invariant
                i <= chunk.len(),
                payload@ == chunk@.take(i as int),
            decreases chunk.len() - i,
        {
            payload.push(chunk[i]);
            proof {
                assert(chunk@.take(i as int).push(chunk@[i as int]) =~= chunk@.take(i + 1));
            }
            i = i + 1;
        }
        proof {
            assert(payload@ =~= chunk@);
        }
        while payload.len() < self.block_len
            invariant
                chunk.len() <= payload.len() <= self.block_len,
                payload@ == chunk@ + Seq::new((payload.len() - chunk.len()) as nat, |j: int| self.pad_byte),
            decreases self.block_len - payload.len(),
        {
            payload.push(self.pad_byte);
            proof {
                assert((chunk@ + Seq::new((payload@.len() - 1 - chunk@.len()) as nat, |j: int| self.pad_byte)).push(self.pad_byte)
                    =~= chunk@ + Seq::new((payload@.len() - chunk@.len()) as nat, |j: int| self.pad_byte));
            }
        }
        proof {
            assert(payload@ =~= padded(chunk@, self.pad_byte, self.block_len as int));
        }
        let c = crc16(payload.as_slice());
        let mut frame: Vec<u8> = Vec::new();
        frame.push(if self.block_len == 128 { SOH } else { STX });
        frame.push(num);
        frame.push(255 - num);
        let ghost head = frame@;
        let mut k: usize = 0;
        while k < payload.len()
            invariant
                k <= payload.len(),
                frame@ == head + payload@.take(k as int),
                payload@ == padded(chunk@, self.pad_byte, self.block_len as int),
            decreases payload.len() - k,
        {
            frame.push(payload[k]);
            proof {
                assert(head + payload@.take(k as int).push(payload@[k as int]) =~= head
                    + payload@.take(k + 1));
            }
            k = k + 1;
        }
        frame.push((c >> 8) as u8);
        frame.push((c & 0xFF) as u8);
        proof {
            assert(payload@.take(payload@.len() as int) =~= payload@);
            assert(frame@ =~= frame_bytes(self.block_len as int, self.pad_byte, num, chunk@));
        }
        frame
    }

    /// Waits for the peer's start byte. CRC-mode solicitation proceeds; a
    /// plain NAK demands checksum-only framing, which is unsupported; two
    /// consecutive cancels abort; anything else is skipped.
    fn send_start<T: ByteTransport>(&self, uart: &mut T) -> (r: Result<(), XmodemError>)
        ensures
            final(uart).sent() == old(uart).sent(),
            ({
                let m = start_run(old(uart).incoming(), 0);
                match r {
                    Ok(()) => m.status is Completed
                        && final(uart).incoming() == old(uart).incoming().skip(m.used),
                    Err(XmodemError::Cancelled) => m.status is Cancelled,
                    Err(XmodemError::UnsupportedMode(reason)) => m.status == ProtoStatus::Unsupported(reason),
                    Err(XmodemError::Transport(_)) => true,
                    Err(XmodemError::ExhaustedRetries(_)) => false,
                }
            }),
    {
        let ghost s0 = uart.incoming();
        let ghost sent0 = uart.sent();
        let mut cancels: usize = 0;
        let ghost mut used: int = 0int;
        proof {
            assert(s0.skip(0) =~= s0);
        }
        #[verifier::loop_isolation(false)]
        loop
            invariant
                cancels <= 1,
                uart.sent() == sent0,
                uart.incoming() == s0.skip(used),
                0 <= used <= s0.len(),
                start_run(s0, 0).status == start_run(s0.skip(used), cancels as int).status,
                start_run(s0, 0).used == used + start_run(s0.skip(used), cancels as int).used,
            decreases s0.len() - used,
        {
            let ghost scur = s0.skip(used);
            let ch = match uart.read_byte() {
                Ok(b) => b,
                Err(e) => return Err(XmodemError::Transport(e)),
            };
            proof {
                assert(scur.skip(1) =~= s0.skip(used + 1));
            }
            if ch == CRC_MODE {
                return Ok(());
            } else if ch == NAK {
                return Err(XmodemError::UnsupportedMode(UnsupportedReason::ChecksumOnly));
            } else if ch == CAN {
                cancels = cancels + 1;
                if cancels >= 2 {
                    return Err(XmodemError::Cancelled);
                }
                proof {
                    used = used + 1;
                }
            } else {
                // An unrecognized byte while waiting for the start signal is
                // skipped, not counted: only the data phase counts errors.
                cancels = 0;
                proof {
                    used = used + 1;
                }
            }
        }
    }

    /// Sends the data blocks: each step writes the frame for the current
    /// chunk and reads one response. ACK advances; a cancel pair aborts;
    /// any other byte counts an error and resends the same frame.
    fn send_data<T: ByteTransport>(&self, uart: &mut T, data: &[u8]) -> (r: Result<
        (),
        XmodemError,
    >)
        requires
            self.max_errors < usize::MAX,
        ensures
            ({
                let m = data_run(
                    self.max_errors as int,
                    self.pad_byte,
                    self.block_len as int,
                    data@,
                    0,
                    1,
                    0,
                    0,
                    old(uart).incoming(),
                );
                match r {
                    Ok(()) => m.status is Completed && final(uart).sent() == old(uart).sent()
                        + m.wire && final(uart).incoming() == old(uart).incoming().skip(m.used),
                    Err(XmodemError::Cancelled) => m.status is Cancelled && final(uart).sent()
                        == old(uart).sent() + m.wire,
                    Err(XmodemError::ExhaustedRetries(n)) => m.status == ProtoStatus::Exhausted(
                        n as int,
                    ) && n == self.max_errors + 1 && final(uart).sent() == old(uart).sent()
                        + m.wire,
                    Err(XmodemError::UnsupportedMode(reason)) => m.status
                        == ProtoStatus::Unsupported(reason) && final(uart).sent() == old(
                        uart,
                    ).sent() + m.wire,
                    Err(XmodemError::Transport(_)) => true,
                }
            }),
    {
        let ghost s0 = uart.incoming();
        let ghost sent0 = uart.sent();
        let ghost m = data_run(
            self.max_errors as int,
            self.pad_byte,
            self.block_len as int,
            data@,
            0,
            1,
            0,
            0,
            s0,
        );
        let mut off: usize = 0;
        let mut num: u8 = 1;
        let mut errors: usize = 0;
        let mut cancels: usize = 0;
        let ghost mut wire_acc: Seq<u8> = Seq::empty();
        let ghost mut used_acc: int = 0int;
        proof {
            assert(s0.skip(0) =~= s0);
            assert(Seq::<u8>::empty() + m.wire =~= m.wire);
        }
        #[verifier::loop_isolation(false)]
        loop
            invariant
                errors <= self.max_errors,
                cancels <= 1,
                off <= data.len(),
                uart.sent() == sent0 + wire_acc,
                uart.incoming() == s0.skip(used_acc),
                0 <= used_acc <= s0.len(),
                ({
                    let mc = data_run(
                        self.max_errors as int,
                        self.pad_byte,
                        self.block_len as int,
                        data@,
                        off as int,
                        num,
                        errors as int,
                        cancels as int,
                        s0.skip(used_acc),
                    );
                    m.status == mc.status && m.wire == wire_acc + mc.wire && m.used == used_acc
                        + mc.used
                }),
            decreases s0.len() - used_acc,
        {
            let ghost scur = s0.skip(used_acc);
            let ghost mc = data_run(
                self.max_errors as int,
                self.pad_byte,
                self.block_len as int,
                data@,
                off as int,
                num,
                errors as int,
                cancels as int,
                scur,
            );
            if off >= data.len() {
                proof {
                    assert(m.wire =~= wire_acc);
                }
                return Ok(());
            }
            if !(self.block_len == 128 || self.block_len == 1024) {
                proof {
                    assert(m.wire =~= wire_acc);
                }
                return Err(XmodemError::UnsupportedMode(UnsupportedReason::BlockLength(self.block_len)));
            }
            let end: usize = if data.len() - off < self.block_len {
                data.len()
            } else {
                off + self.block_len
            };
            let frame = self.build_frame(num, &data[off..end]);
            let ghost fr = frame_bytes(
                self.block_len as int,
                self.pad_byte,
                num,
                chunk_at(data@, off as int, self.block_len as int),
            );
            proof {
                assert(data@.subrange(off as int, end as int) =~= chunk_at(
                    data@,
                    off as int,
                    self.block_len as int,
                ));
            }
            match uart.write_bytes(frame.as_slice()) {
                Ok(()) => {},
                Err(e) => return Err(XmodemError::Transport(e)),
            }
            proof {
                wire_acc = wire_acc + fr;
                assert(uart.sent() =~= sent0 + wire_acc);
            }
            let ch = match uart.read_byte() {
                Ok(b) => b,
                Err(e) => return Err(XmodemError::Transport(e)),
            };
            proof {
                assert(ch == scur[0]);
                used_acc = used_acc + 1;
                assert(scur.skip(1) =~= s0.skip(used_acc));
            }
            if ch == ACK {
                let ghost rec = data_run(
                    self.max_errors as int,
                    self.pad_byte,
                    self.block_len as int,
                    data@,
                    off as int + self.block_len as int,
                    next_num(num),
                    errors as int,
                    0,
                    scur.skip(1),
                );
                proof {
                    assert(mc.status == rec.status && mc.wire == fr + rec.wire && mc.used == 1
                        + rec.used);
                    assert(m.wire =~= wire_acc + rec.wire);
                }
                off = end;
                num = if num == 255 {
                    0
                } else {
                    num + 1
                };
                cancels = 0;
                proof {
                    let mnext = data_run(
                        self.max_errors as int,
                        self.pad_byte,
                        self.block_len as int,
                        data@,
                        off as int,
                        num,
                        errors as int,
                        cancels as int,
                        s0.skip(used_acc),
                    );
                    assert(mnext == rec);
                }
            } else if ch == CAN {
                cancels = cancels + 1;
                if cancels >= 2 {
                    return Err(XmodemError::Cancelled);
                }
                proof {
                    assert(m.wire =~= wire_acc + data_run(
                        self.max_errors as int,
                        self.pad_byte,
                        self.block_len as int,
                        data@,
                        off as int,
                        num,
                        errors as int,
                        cancels as int,
                        s0.skip(used_acc),
                    ).wire);
                }
            } else {
                // NAK or an unexpected byte: count it and resend.
                cancels = 0;
                errors = errors + 1;
                if errors > self.max_errors {
                    return Err(XmodemError::ExhaustedRetries(errors));
                }
                proof {
                    assert(m.wire =~= wire_acc + data_run(
                        self.max_errors as int,
                        self.pad_byte,
                        self.block_len as int,
                        data@,
                        off as int,
                        num,
                        errors as int,
                        cancels as int,
                        s0.skip(used_acc),
                    ).wire);
                }
            }
        }
    }

    /// Ends the transfer: writes the end-of-transfer byte and reads one
    /// response, which is not retried whatever it is.
    fn send_finish<T: ByteTransport>(&self, uart: &mut T) -> (r: Result<(), XmodemError>)
        ensures
            match r {
                Ok(()) => old(uart).incoming().len() > 0
                    && final(uart).incoming() == old(uart).incoming().skip(1)
                    && final(uart).sent() == old(uart).sent() + seq![EOF],
                Err(XmodemError::Transport(_)) => true,
                _ => false,
            },
    {
        let mut eof_buf: Vec<u8> = Vec::new();
        eof_buf.push(EOF);
        proof {
            assert(eof_buf@ =~= seq![EOF]);
        }
        match uart.write_bytes(eof_buf.as_slice()) {
            Ok(()) => {},
            Err(e) => return Err(XmodemError::Transport(e)),
        }
        // Whatever the response byte is, the end of transfer is not
        // retried; only a channel failure is surfaced.
        match uart.read_byte() {
            Ok(_ch) => {},
            Err(e) => return Err(XmodemError::Transport(e)),
        }
        Ok(())
    }

    /// Streams `data` to the peer: waits for the CRC-mode start byte,
    /// sends every block under the acknowledgment-gated retry discipline,
    /// then signals the end of the transfer.
    ///
    /// The outcome is exactly the modelled run over the bytes the peer
    /// delivers, unless the channel itself fails.
    pub fn send<T: ByteTransport>(&self, uart: &mut T, data: &[u8]) -> (r: Result<
        (),
        XmodemError,
    >)
        requires
            self.max_errors < usize::MAX,
        ensures
            ({
                let m = send_model(
                    self.max_errors as int,
                    self.pad_byte,
                    self.block_len as int,
                    data@,
                    old(uart).incoming(),
                );
                match r {
                    Ok(()) => m.status is Completed && final(uart).sent() == old(uart).sent()
                        + m.wire && final(uart).incoming() == old(uart).incoming().skip(m.used),
                    Err(XmodemError::Cancelled) => m.status is Cancelled && final(uart).sent()
                        == old(uart).sent() + m.wire,
                    Err(XmodemError::ExhaustedRetries(n)) => m.status == ProtoStatus::Exhausted(
                        n as int,
                    ) && n == self.max_errors + 1 && final(uart).sent() == old(uart).sent()
                        + m.wire,
                    Err(XmodemError::UnsupportedMode(reason)) => m.status
                        == ProtoStatus::Unsupported(reason) && final(uart).sent() == old(
                        uart,
                    ).sent() + m.wire,
                    Err(XmodemError::Transport(_)) => true,
                }
            }),
    {
        let ghost s0 = uart.incoming();
        let ghost sent0 = uart.sent();
        let ghost st = start_run(s0, 0);
        match self.send_start(uart) {
            Ok(()) => {},
            Err(e) => {
                proof {
                    assert(sent0 + Seq::<u8>::empty() =~= sent0);
                }
                return Err(e);
            },
        }
        proof {
            lemma_start_used_bounds(s0, 0);
        }
        let ghost s1 = s0.skip(st.used);
        let ghost d = data_run(
            self.max_errors as int,
            self.pad_byte,
            self.block_len as int,
            data@,
            0,
            1,
            0,
            0,
            s1,
        );
        match self.send_data(uart, data) {
            Ok(()) => {},
            Err(e) => return Err(e),
        }
        proof {
            lemma_data_used_bounds(
                self.max_errors as int,
                self.pad_byte,
                self.block_len as int,
                data@,
                0,
                1,
                0,
                0,
                s1,
            );
            assert(s1.skip(d.used) =~= s0.skip(st.used + d.used));
        }
        match self.send_finish(uart) {
            Ok(()) => {},
            Err(e) => return Err(e),
        }
        proof {
            assert(s0.skip(st.used + d.used).skip(1) =~= s0.skip(st.used + d.used + 1));
            assert((sent0 + d.wire) + seq![EOF] =~= sent0 + (d.wire + seq![EOF]));
        }
        Ok(())
    }

    /// Receives a stream into `data`: solicits CRC framing, then drains,
    /// validates and acknowledges one full frame at a time until the
    /// end-of-transfer byte. A block-number mismatch cancels the transfer
    /// only after the whole frame is drained, keeping the link aligned.
    ///
    /// The outcome is exactly the modelled run over the bytes the sender
    /// delivers, unless the channel itself fails.
    #[verifier::rlimit(100)]
    #[verifier::spinoff_prover]
    pub fn receive<T: ByteTransport>(&self, uart: &mut T, data: &mut Vec<u8>) -> (r: Result<
        (),
        XmodemError,
    >)
        requires
            self.max_errors < usize::MAX,
        ensures
            ({
                let m = recv_run(self.max_errors as int, 1, 0, old(uart).incoming());
                match r {
                    Ok(()) => m.status is Completed
                        && final(data)@ == old(data)@ + m.data
                        && final(uart).sent() == old(uart).sent() + seq![CRC_MODE] + m.resp,
                    Err(XmodemError::Cancelled) => m.status is Cancelled
                        && final(data)@ == old(data)@ + m.data
                        && final(uart).sent() == old(uart).sent() + seq![CRC_MODE] + m.resp,
                    Err(XmodemError::ExhaustedRetries(n)) => m.status
                        == ProtoStatus::Exhausted(n as int)
                        && n == self.max_errors + 1
                        && final(data)@ == old(data)@ + m.data
                        && final(uart).sent() == old(uart).sent() + seq![CRC_MODE] + m.resp,
                    Err(XmodemError::UnsupportedMode(reason)) => m.status
                        == ProtoStatus::Unsupported(reason)
                        && final(data)@ == old(data)@ + m.data
                        && final(uart).sent() == old(uart).sent() + seq![CRC_MODE] + m.resp,
                    Err(XmodemError::Transport(_)) => true,
                }
            }),
    {
        let ghost s0 = uart.incoming();
        let ghost sent0 = uart.sent();
        let ghost data0 = data@;
        let ghost m = recv_run(self.max_errors as int, 1, 0, s0);
        let mut solicit: Vec<u8> = Vec::new();
        solicit.push(CRC_MODE);
        proof {
            assert(solicit@ =~= seq![CRC_MODE]);
        }
        match uart.write_bytes(solicit.as_slice()) {
            Ok(()) => {},
            Err(e) => return Err(XmodemError::Transport(e)),
        }
        let mut num: u8 = 1;
        let mut errors: usize = 0;
        let ghost mut resp_acc: Seq<u8> = Seq::empty();
        let ghost mut used_acc: int = 0int;
        proof {
            assert(s0.skip(0) =~= s0);
            assert(Seq::<u8>::empty() + m.data =~= m.data);
            assert(Seq::<u8>::empty() + m.resp =~= m.resp);
            assert(data@.skip(data0.len() as int) =~= Seq::<u8>::empty());
            assert(data@.take(data0.len() as int) =~= data0);
        }
        #[verifier::loop_isolation(false)]
        loop
            invariant
                errors <= self.max_errors,
                uart.sent() == sent0 + seq![CRC_MODE] + resp_acc,
                uart.incoming() == s0.skip(used_acc),
                0 <= used_acc <= s0.len(),
                data@.len() >= data0.len(),
                data@.take(data0.len() as int) == data0,
                ({
                    let mc = recv_run(self.max_errors as int, num, errors as int, s0.skip(used_acc));
                    m.status == mc.status && m.data == data@.skip(data0.len() as int) + mc.data
                        && m.resp == resp_acc + mc.resp
                }),
            decreases s0.len() - used_acc,
        {
            let ghost scur = s0.skip(used_acc);
            let ghost mc = recv_run(self.max_errors as int, num, errors as int, scur);
            let h = match uart.read_byte() {
                Ok(b) => b,
                Err(e) => return Err(XmodemError::Transport(e)),
            };
            proof {
                assert(h == scur[0]);
                assert(scur.skip(1) =~= s0.skip(used_acc + 1));
            }
            if h == EOF {
                let mut ackb: Vec<u8> = Vec::new();
                ackb.push(ACK);
                proof {
                    assert(ackb@ =~= seq![ACK]);
                }
                match uart.write_bytes(ackb.as_slice()) {
                    Ok(()) => {},
                    Err(e) => return Err(XmodemError::Transport(e)),
                }
                proof {
                    assert(m.data =~= data@.skip(data0.len() as int));
                    assert(sent0 + seq![CRC_MODE] + resp_acc + seq![ACK] =~= sent0 + seq![CRC_MODE]
                        + (resp_acc + seq![ACK]));
                }
                return Ok(());
            }
            if h != SOH && h != STX {
                proof {
                    assert(m.data =~= data@.skip(data0.len() as int));
                    assert(m.resp =~= resp_acc);
                }
                return Err(XmodemError::UnsupportedMode(UnsupportedReason::PacketStart(h)));
            }
            let bl: usize = if h == SOH {
                128
            } else {
                1024
            };
            let bnum = match uart.read_byte() {
                Ok(b) => b,
                Err(e) => return Err(XmodemError::Transport(e)),
            };
            let bcom = match uart.read_byte() {
                Ok(b) => b,
                Err(e) => return Err(XmodemError::Transport(e)),
            };
            proof {
                assert(bnum == scur[1]);
                assert(bcom == scur[2]);
                assert(uart.incoming() =~= scur.skip(3));
            }
            // The whole frame is drained before any verdict is acted on, so
            // that the link stays byte-aligned for the next frame.
            let mut buffer: Vec<u8> = Vec::new();
            while buffer.len() < bl
                invariant
                    buffer.len() <= bl,
                    scur.len() >= 3 + buffer.len(),
                    buffer@ == scur.subrange(3, 3 + buffer.len()),
                    uart.incoming() == scur.skip(3 + buffer.len()),
                    uart.sent() == sent0 + seq![CRC_MODE] + resp_acc,
                decreases bl - buffer.len(),
            {
                let want = bl - buffer.len();
                let mut chunkv = match uart.read_upto(want) {
                    Ok(v) => v,
                    Err(e) => return Err(XmodemError::Transport(e)),
                };
                let ghost pre = buffer@;
                let ghost got = chunkv@;
                buffer.append(&mut chunkv);
                proof {
                    assert(got =~= scur.skip(3 + pre.len() as int).take(got.len() as int));
                    assert(buffer@ =~= scur.subrange(3, 3 + buffer@.len() as int));
                    assert(uart.incoming() =~= scur.skip(3 + buffer@.len() as int));
                }
            }
            let c1 = match uart.read_byte() {
                Ok(b) => b,
                Err(e) => return Err(XmodemError::Transport(e)),
            };
            let c2 = match uart.read_byte() {
                Ok(b) => b,
                Err(e) => return Err(XmodemError::Transport(e)),
            };
            proof {
                assert(c1 == scur[3 + bl]);
                assert(c2 == scur[4 + bl]);
                assert(uart.incoming() =~= scur.skip(5 + bl));
                assert(scur.skip(5 + bl) =~= s0.skip(used_acc + 5 + bl));
            }
            let crc = ((c1 as u16) << 8u16) | (c2 as u16);
            let cancel = bnum != num || bnum != 255 - bcom;
            if cancel {
                let mut canb: Vec<u8> = Vec::new();
                canb.push(CAN);
                canb.push(CAN);
                proof {
                    assert(canb@ =~= seq![CAN, CAN]);
                }
                match uart.write_bytes(canb.as_slice()) {
                    Ok(()) => {},
                    Err(e) => return Err(XmodemError::Transport(e)),
                }
                proof {
                    assert(m.data =~= data@.skip(data0.len() as int));
                    assert(m.resp =~= resp_acc + seq![CAN, CAN]);
                    assert(sent0 + seq![CRC_MODE] + resp_acc + seq![CAN, CAN] =~= sent0 + seq![
                        CRC_MODE,
                    ] + (resp_acc + seq![CAN, CAN]));
                }
                return Err(XmodemError::Cancelled);
            }
            let computed = crc16(buffer.as_slice());
            let ghost payload = scur.subrange(3, 3 + bl);
            if computed == crc {
                let mut ackb: Vec<u8> = Vec::new();
                ackb.push(ACK);
                proof {
                    assert(ackb@ =~= seq![ACK]);
                }
                match uart.write_bytes(ackb.as_slice()) {
                    Ok(()) => {},
                    Err(e) => return Err(XmodemError::Transport(e)),
                }
                let ghost appended = data@.skip(data0.len() as int);
                data.append(&mut buffer);
                num = if num == 255 {
                    0
                } else {
                    num + 1
                };
                proof {
                    used_acc = used_acc + 5 + bl;
                    resp_acc = resp_acc + seq![ACK];
                    let rec = recv_run(self.max_errors as int, num, errors as int, s0.skip(used_acc));
                    assert(data@.take(data0.len() as int) =~= data0);
                    assert(data@.skip(data0.len() as int) =~= appended + payload);
                    assert(m.data =~= data@.skip(data0.len() as int) + rec.data);
                    assert(m.resp =~= resp_acc + rec.resp);
                    assert(uart.sent() =~= sent0 + seq![CRC_MODE] + resp_acc);
                }
            } else {
                let mut nakb: Vec<u8> = Vec::new();
                nakb.push(NAK);
                proof {
                    assert(nakb@ =~= seq![NAK]);
                }
                match uart.write_bytes(nakb.as_slice()) {
                    Ok(()) => {},
                    Err(e) => return Err(XmodemError::Transport(e)),
                }
                errors = errors + 1;
                if errors > self.max_errors {
                    proof {
                        assert(m.data =~= data@.skip(data0.len() as int));
                        assert(m.resp =~= resp_acc + seq![NAK]);
                        assert(sent0 + seq![CRC_MODE] + resp_acc + seq![NAK] =~= sent0 + seq![
                            CRC_MODE,
                        ] + (resp_acc + seq![NAK]));
                    }
                    return Err(XmodemError::ExhaustedRetries(errors));
                }
                proof {
                    used_acc = used_acc + 5 + bl;
                    resp_acc = resp_acc + seq![NAK];
                    let rec = recv_run(self.max_errors as int, num, errors as int, s0.skip(used_acc));
                    assert(m.data =~= data@.skip(data0.len() as int) + rec.data);
                    assert(m.resp =~= resp_acc + rec.resp);
                    assert(uart.sent() =~= sent0 + seq![CRC_MODE] + resp_acc);
                }
            }
        }
    }
}

impl Default for Xmodem {
    /// The default configuration: 16 retries, `0xFF` padding, 1024-byte
    /// blocks.
    fn default() -> (r: Xmodem)
        ensures
            r.max_errors == 16,
            r.pad_byte == 0xFF,
            r.block_len == 1024,
    {
        Xmodem::new()
    }
}

/// The modelled start wait never consumes more bytes than were delivered.
pub proof fn lemma_start_used_bounds(s: Seq<u8>, cancels: int)
    ensures
        0 <= start_run(s, cancels).used <= s.len(),
    decreases s.len(),
{
    if s.len() != 0 && s[0] != CRC_MODE && s[0] != NAK {
        if s[0] == CAN {
            if cancels + 1 < 2 {
                lemma_start_used_bounds(s.skip(1), cancels + 1);
            }
        } else {
            lemma_start_used_bounds(s.skip(1), 0);
        }
    }
}

/// The modelled data phase never consumes more bytes than were delivered.
pub proof fn lemma_data_used_bounds(
    max_errors: int,
    pad: u8,
    block_len: int,
    data: Seq<u8>,
    off: int,
    num: u8,
    errors: int,
    cancels: int,
    s: Seq<u8>,
)
    ensures
        0 <= data_run(max_errors, pad, block_len, data, off, num, errors, cancels, s).used
            <= s.len(),
    decreases s.len(),
{
    if off < data.len() && valid_block_len(block_len) && s.len() != 0 {
        if s[0] == ACK {
            lemma_data_used_bounds(
                max_errors,
                pad,
                block_len,
                data,
                off + block_len,
                next_num(num),
                errors,
                0,
                s.skip(1),
            );
        } else if s[0] == CAN {
            if cancels + 1 < 2 {
                lemma_data_used_bounds(
                    max_errors,
                    pad,
                    block_len,
                    data,
                    off,
                    num,
                    errors,
                    cancels + 1,
                    s.skip(1),
                );
            }
        } else {
            if !(errors + 1 > max_errors) {
                lemma_data_used_bounds(
                    max_errors,
                    pad,
                    block_len,
                    data,
                    off,
                    num,
                    errors + 1,
                    0,
                    s.skip(1),
                );
            }
        }
    }
}

} // verus!

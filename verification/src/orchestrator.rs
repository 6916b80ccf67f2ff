//! DFU-style transfer orchestrator: chunks a payload into control-transfer
//! sized pieces, drives download with status polling, and performs the
//! single-shot upload. Transport-agnostic: it depends only on the
//! `DfuOperations` capability set, so the same logic runs over real USB or
//! an SPI-mailbox emulation.

use crate::dfu::DfuError;
use crate::dfu::DfuEvent;
use crate::dfu::DfuOperations;
use crate::dfu::DfuState;
use crate::dfu::DfuStatus;
use crate::transport::TransportError;
use vstd::prelude::*;

verus! {

/// Control-transfer payload size used for downloads and uploads.
pub const DFU_CHUNK_LEN: usize = 2048;

/// A terminal failure of a DFU transfer.
#[derive(Debug)]
pub enum DfuTransferError {
    /// The device reported a non-success status after a chunk; the whole
    /// transfer is aborted and the device-side error is not masked.
    Status(DfuError),
    /// The control-transfer primitive failed.
    Transport(TransportError),
}

/// End of the next chunk starting at `off`.
pub open spec fn dfu_chunk_end(data: Seq<u8>, off: int) -> int {
    if off + DFU_CHUNK_LEN <= data.len() {
        off + DFU_CHUNK_LEN
    } else {
        data.len() as int
    }
}

/// The chunks a download of `data` issues from offset `off`, in order.
pub open spec fn dfu_chunks(data: Seq<u8>, off: int) -> Seq<Seq<u8>>
    decreases data.len() - off,
{
    if off >= data.len() {
        Seq::empty()
    } else {
        seq![data.subrange(off, dfu_chunk_end(data, off))] + dfu_chunks(
            data,
            dfu_chunk_end(data, off),
        )
    }
}

/// Outcome of the modelled poll for a settled state.
pub struct PollRun {
    /// Whether a settled state arrived before the device stopped
    /// reporting.
    pub found: bool,
    /// Status records consumed.
    pub used: int,
    /// Operations issued: a status fetch, then a wait per busy report.
    pub log: Seq<DfuEvent>,
}

/// The poll discipline: fetch a status, and while the state is neither
/// download-idle nor error, wait the device-chosen time and refetch.
pub open spec fn poll_run(pending: Seq<DfuStatus>) -> PollRun
    decreases pending.len(),
{
    if pending.len() == 0 {
        PollRun { found: false, used: 0, log: Seq::empty() }
    } else {
        let st = pending[0];
        if st.state is DnLoadIdle || st.state is Error {
            PollRun { found: true, used: 1, log: seq![DfuEvent::GetStatus] }
        } else {
            let rec = poll_run(pending.skip(1));
            PollRun {
                found: rec.found,
                used: 1 + rec.used,
                log: seq![DfuEvent::GetStatus, DfuEvent::Delay(st.poll_timeout as int)] + rec.log,
            }
        }
    }
}

/// A poll never consumes more status records than the device reports,
/// and consumes at least one when it settles.
pub proof fn lemma_poll_used_bounds(pending: Seq<DfuStatus>)
    ensures
        0 <= poll_run(pending).used <= pending.len(),
        poll_run(pending).found ==> poll_run(pending).used >= 1,
    decreases pending.len(),
{
    if pending.len() > 0 {
        let st = pending[0];
        if !(st.state is DnLoadIdle || st.state is Error) {
            lemma_poll_used_bounds(pending.skip(1));
        }
    }
}

/// The status record a successful poll settles on.
pub open spec fn poll_settled(pending: Seq<DfuStatus>) -> DfuStatus {
    pending[poll_run(pending).used - 1]
}

/// How a modelled DFU send ends.
pub enum DfuSendStatus {
    /// Every chunk was downloaded and acknowledged, and the terminator was
    /// issued.
    Completed,
    /// The device reported this error cause after a chunk settled.
    Failed(DfuError),
    /// The device stopped reporting statuses before the transfer settled;
    /// the orchestrator reports the transport failure it observes then.
    Starved,
}

/// Outcome of a modelled DFU send.
pub struct DfuSendRun {
    pub status: DfuSendStatus,
    /// Operations issued, in order.
    pub log: Seq<DfuEvent>,
    /// Status records consumed.
    pub used: int,
}

/// A whole DFU send as a function of the status records the device
/// reports: each chunk is downloaded then polled to a settled state whose
/// error cause must be success; after the last chunk a zero-length
/// download signals the end, one status is fetched, and a reboot is issued
/// if the device sits in the manifest state and no deferred wait was
/// requested.
pub open spec fn dfu_send_run(
    data: Seq<u8>,
    off: int,
    wait: bool,
    pending: Seq<DfuStatus>,
) -> DfuSendRun
    decreases data.len() - off,
{
    if off < data.len() {
        let chunk = data.subrange(off, dfu_chunk_end(data, off));
        let p = poll_run(pending);
        if !p.found {
            DfuSendRun {
                status: DfuSendStatus::Starved,
                log: seq![DfuEvent::Download(chunk)] + p.log,
                used: p.used,
            }
        } else {
            let st = poll_settled(pending);
            if !(st.status is Success) {
                DfuSendRun {
                    status: DfuSendStatus::Failed(st.status),
                    log: seq![DfuEvent::Download(chunk)] + p.log,
                    used: p.used,
                }
            } else {
                let rec = dfu_send_run(data, dfu_chunk_end(data, off), wait, pending.skip(p.used));
                DfuSendRun {
                    status: rec.status,
                    log: seq![DfuEvent::Download(chunk)] + p.log + rec.log,
                    used: p.used + rec.used,
                }
            }
        }
    } else {
        if pending.len() == 0 {
            DfuSendRun {
                status: DfuSendStatus::Starved,
                log: seq![DfuEvent::Download(Seq::empty())],
                used: 0,
            }
        } else {
            let st = pending[0];
            let base = seq![DfuEvent::Download(Seq::empty()), DfuEvent::GetStatus];
            if st.state is Manifest && !wait {
                DfuSendRun {
                    status: DfuSendStatus::Completed,
                    log: base + seq![DfuEvent::Reboot],
                    used: 1,
                }
            } else {
                DfuSendRun { status: DfuSendStatus::Completed, log: base, used: 1 }
            }
        }
    }
}

/// Drives one DFU transfer over any backend with the `DfuOperations`
/// capability set.
#[derive(Debug)]
pub struct TransferOrchestrator {
    /// When set, the final reboot is deferred to the caller even if the
    /// device settles in the manifest state.
    pub wait: bool,
}

impl TransferOrchestrator {
    /// An orchestrator that reboots the device after a download that ends
    /// in the manifest state.
    pub fn new() -> (r: TransferOrchestrator)
        ensures
            r.wait == false,
    {
        TransferOrchestrator { wait: false }
    }

    /// Defers the final reboot to the caller.
    pub fn set_wait(&mut self)
        ensures
            final(self).wait == true,
    {
        self.wait = true;
    }

    /// Polls the device until it reports a settled state: fetches a
    /// status, and while the state is neither download-idle nor error,
    /// waits the device-chosen poll timeout and refetches.
    fn poll_status<T: DfuOperations>(&self, dev: &mut T) -> (r: Result<DfuStatus, TransportError>)
        ensures
            match r {
                Ok(st) => ({
                    let p = poll_run(old(dev).pending());
                    p.found && st == poll_settled(old(dev).pending()) && (st.state is DnLoadIdle
                        || st.state is Error) && final(dev).pending() == old(dev).pending().skip(
                        p.used,
                    ) && final(dev).log() == old(dev).log() + p.log
                }),
                Err(_) => true,
            },
    {
        let ghost p0 = dev.pending();
        let ghost log0 = dev.log();
        let ghost mut used_acc: int = 0int;
        let ghost mut log_acc: Seq<DfuEvent> = Seq::empty();
        proof {
            assert(p0.skip(0) =~= p0);
            assert(log0 + Seq::<DfuEvent>::empty() =~= log0);
            assert(Seq::<DfuEvent>::empty() + poll_run(p0).log =~= poll_run(p0).log);
        }
        #[verifier::loop_isolation(false)]
        loop
            invariant
                dev.pending() == p0.skip(used_acc),
                0 <= used_acc <= p0.len(),
                dev.log() == log0 + log_acc,
                poll_run(p0).found == poll_run(p0.skip(used_acc)).found,
                poll_run(p0).used == used_acc + poll_run(p0.skip(used_acc)).used,
                poll_run(p0).log == log_acc + poll_run(p0.skip(used_acc)).log,
            decreases p0.len() - used_acc,
        {
            let ghost pcur = p0.skip(used_acc);
            let st = match dev.get_status() {
                Ok(s) => s,
                Err(e) => return Err(e),
            };
            proof {
                assert(st == pcur[0]);
                assert(pcur.skip(1) =~= p0.skip(used_acc + 1));
            }
            let settled = match st.state() {
                DfuState::DnLoadIdle => true,
                DfuState::Error => true,
                _ => false,
            };
            if settled {
                proof {
                    assert(poll_run(pcur).used == 1);
                    assert(poll_settled(p0) == p0[used_acc]);
                    assert(p0[used_acc] == pcur[0]);
                    assert(poll_run(p0).log =~= log_acc + seq![DfuEvent::GetStatus]);
                    assert(dev.log() =~= log0 + (log_acc + seq![DfuEvent::GetStatus]));
                    assert(p0.skip(used_acc + 1) =~= p0.skip(poll_run(p0).used));
                }
                return Ok(st);
            }
            match dev.delay_ms(st.poll_timeout()) {
                Ok(()) => {},
                Err(e) => return Err(e),
            }
            proof {
                used_acc = used_acc + 1;
                log_acc = log_acc + seq![DfuEvent::GetStatus, DfuEvent::Delay(
                    st.poll_timeout as int,
                )];
                assert(dev.log() =~= log0 + log_acc);
                assert(poll_run(p0).log =~= log_acc + poll_run(p0.skip(used_acc)).log);
            }
        }
    }

    /// Sends `data` to the device: downloads it in fixed-size chunks, each
    /// polled to a settled state whose error cause must be success; then
    /// issues the zero-length terminator, fetches one final status, and
    /// reboots the device if it sits in the manifest state and no deferred
    /// wait was requested. A device-reported error aborts the whole
    /// transfer; nothing is retried here.
    pub fn send<T: DfuOperations>(&self, dev: &mut T, data: &[u8]) -> (r: Result<
        (),
        DfuTransferError,
    >)
        ensures
            ({
                let m = dfu_send_run(data@, 0, self.wait, old(dev).pending());
                match r {
                    Ok(()) => m.status is Completed && final(dev).log() == old(dev).log() + m.log
                        && final(dev).pending() == old(dev).pending().skip(m.used),
                    Err(DfuTransferError::Status(e)) => m.status == DfuSendStatus::Failed(e)
                        && !(e is Success) && final(dev).log() == old(dev).log() + m.log,
                    Err(DfuTransferError::Transport(_)) => true,
                }
            }),
    {
        let ghost p0 = dev.pending();
        let ghost log0 = dev.log();
        let ghost m = dfu_send_run(data@, 0, self.wait, p0);
        let mut off: usize = 0;
        let ghost mut used_acc: int = 0int;
        let ghost mut log_acc: Seq<DfuEvent> = Seq::empty();
        proof {
            assert(p0.skip(0) =~= p0);
            assert(log0 + Seq::<DfuEvent>::empty() =~= log0);
            assert(Seq::<DfuEvent>::empty() + m.log =~= m.log);
        }
        #[verifier::loop_isolation(false)]
        while off < data.len()
            invariant
                off <= data.len(),
                dev.pending() == p0.skip(used_acc),
                0 <= used_acc <= p0.len(),
                dev.log() == log0 + log_acc,
                ({
                    let mc = dfu_send_run(data@, off as int, self.wait, p0.skip(used_acc));
                    m.status == mc.status && m.log == log_acc + mc.log && m.used == used_acc
                        + mc.used
                }),
            decreases data.len() - off,
        {
            let ghost pcur = p0.skip(used_acc);
            let ghost mc = dfu_send_run(data@, off as int, self.wait, pcur);
            let end: usize = if data.len() - off < DFU_CHUNK_LEN {
                data.len()
            } else {
                off + DFU_CHUNK_LEN
            };
            proof {
                assert(data@.subrange(off as int, end as int) =~= data@.subrange(
                    off as int,
                    dfu_chunk_end(data@, off as int),
                ));
            }
            match dev.download(&data[off..end]) {
                Ok(_) => {},
                Err(e) => return Err(DfuTransferError::Transport(e)),
            }
            proof {
                log_acc = log_acc + seq![DfuEvent::Download(data@.subrange(off as int, end as int))];
                assert(dev.log() =~= log0 + log_acc);
            }
            let st = match self.poll_status(dev) {
                Ok(s) => s,
                Err(e) => return Err(DfuTransferError::Transport(e)),
            };
            let ghost p = poll_run(pcur);
            let ghost dl = seq![DfuEvent::Download(data@.subrange(off as int, end as int))];
            proof {
                lemma_poll_used_bounds(pcur);
                used_acc = used_acc + p.used;
                log_acc = log_acc + p.log;
                assert(dev.log() =~= log0 + log_acc);
                assert(pcur.skip(p.used) =~= p0.skip(used_acc));
            }
            match st.status() {
                Ok(()) => {},
                Err(e) => {
                    proof {
                        assert(mc.log =~= dl + p.log);
                        assert(m.log =~= log_acc);
                    }
                    return Err(DfuTransferError::Status(e));
                },
            }
            let ghost rec = dfu_send_run(data@, dfu_chunk_end(data@, off as int), self.wait, p0.skip(used_acc));
            proof {
                assert(mc.status == rec.status && mc.used == p.used + rec.used);
                assert(mc.log =~= dl + p.log + rec.log);
                assert(m.log =~= log_acc + rec.log);
            }
            off = end;
            proof {
                let mnext = dfu_send_run(data@, off as int, self.wait, p0.skip(used_acc));
                assert(mnext == rec);
            }
        }
        // Zero-length download: signals the end of the transfer.
        let terminator: Vec<u8> = Vec::new();
        match dev.download(terminator.as_slice()) {
            Ok(_) => {},
            Err(e) => return Err(DfuTransferError::Transport(e)),
        }
        proof {
            assert(terminator@ =~= Seq::<u8>::empty());
            log_acc = log_acc + seq![DfuEvent::Download(Seq::empty())];
            assert(dev.log() =~= log0 + log_acc);
        }
        let st = match dev.get_status() {
            Ok(s) => s,
            Err(e) => return Err(DfuTransferError::Transport(e)),
        };
        proof {
            log_acc = log_acc + seq![DfuEvent::GetStatus];
            assert(dev.log() =~= log0 + log_acc);
            used_acc = used_acc + 1;
        }
        // The final status's error cause is not checked here: only the
        // state steers the reboot decision.
        if st.state() == DfuState::Manifest && !self.wait {
            match dev.reboot() {
                Ok(()) => {},
                Err(e) => return Err(DfuTransferError::Transport(e)),
            }
            proof {
                assert(m.log =~= log_acc + seq![DfuEvent::Reboot]);
                assert(dev.log() =~= log0 + m.log);
                assert(dev.pending() =~= p0.skip(m.used));
            }
        } else {
            proof {
                assert(m.log =~= log_acc);
                assert(dev.pending() =~= p0.skip(m.used));
            }
        }
        Ok(())
    }

    /// Receives one fixed-size upload and returns it as a whole buffer:
    /// what the device handed back, extended with zeros to the full chunk
    /// length. Deliberately single-shot — the upload is not looped to
    /// detect a short or terminal packet.
    pub fn recv<T: DfuOperations>(&self, dev: &mut T) -> (r: Result<Vec<u8>, DfuTransferError>)
        ensures
            match r {
                Ok(v) => v.len() == DFU_CHUNK_LEN && final(dev).log().len() == old(
                    dev,
                ).log().len() + 1
                    && final(dev).log().take(old(dev).log().len() as int) == old(dev).log() && (
                    final(dev).log().last() matches DfuEvent::Upload { max, reply } && max
                        == DFU_CHUNK_LEN as int && reply.len() <= DFU_CHUNK_LEN && v@ == reply
                        + Seq::new((DFU_CHUNK_LEN - reply.len()) as nat, |i: int| 0u8)),
                Err(DfuTransferError::Transport(_)) => true,
                Err(DfuTransferError::Status(_)) => false,
            },
    {
        let mut v = match dev.upload(DFU_CHUNK_LEN) {
            Ok(v) => v,
            Err(e) => return Err(DfuTransferError::Transport(e)),
        };
        let ghost uploaded = v@;
        proof {
            assert(dev.log().take(old(dev).log().len() as int) =~= old(dev).log());
        }
        while v.len() < DFU_CHUNK_LEN
            invariant
                uploaded.len() <= v.len() <= DFU_CHUNK_LEN,
                v@ == uploaded + Seq::new((v.len() - uploaded.len()) as nat, |i: int| 0u8),
            decreases DFU_CHUNK_LEN - v.len(),
        {
            let ghost pre = v@;
            v.push(0);
            proof {
                assert(v@ =~= uploaded + Seq::new((v@.len() - uploaded.len()) as nat, |i: int| 0u8));
            }
        }
        proof {
            assert(v@ =~= uploaded + Seq::new((DFU_CHUNK_LEN - uploaded.len()) as nat, |i: int| 0u8));
        }
        Ok(v)
    }
}

/// The downloads recorded in an operation log, in order.
pub open spec fn downloads_of(log: Seq<DfuEvent>) -> Seq<Seq<u8>>
    decreases log.len(),
{
    if log.len() == 0 {
        Seq::empty()
    } else {
        let rest = downloads_of(log.skip(1));
        if log[0] is Download {
            seq![log[0]->Download_0] + rest
        } else {
            rest
        }
    }
}

proof fn lemma_downloads_concat(a: Seq<DfuEvent>, b: Seq<DfuEvent>)
    ensures
        downloads_of(a + b) == downloads_of(a) + downloads_of(b),
    decreases a.len(),
{
    if a.len() == 0 {
        assert(a + b =~= b);
        assert(downloads_of(a) + downloads_of(b) =~= downloads_of(b));
    } else {
        assert((a + b).skip(1) =~= a.skip(1) + b);
        lemma_downloads_concat(a.skip(1), b);
        assert((a + b)[0] == a[0]);
        if a[0] is Download {
            assert(downloads_of(a + b) =~= downloads_of(a) + downloads_of(b));
        }
    }
}

proof fn lemma_downloads_single(e: DfuEvent)
    ensures
        downloads_of(seq![e]) == if e is Download {
            seq![e->Download_0]
        } else {
            Seq::<Seq<u8>>::empty()
        },
{
    assert(seq![e].skip(1) =~= Seq::<DfuEvent>::empty());
    assert(downloads_of(Seq::<DfuEvent>::empty()) == Seq::<Seq<u8>>::empty());
    if e is Download {
        assert(downloads_of(seq![e]) =~= seq![e->Download_0]);
    } else {
        assert(downloads_of(seq![e]) =~= Seq::<Seq<u8>>::empty());
    }
}

proof fn lemma_poll_log_no_downloads(pending: Seq<DfuStatus>)
    ensures
        downloads_of(poll_run(pending).log) == Seq::<Seq<u8>>::empty(),
    decreases pending.len(),
{
    if pending.len() == 0 {
        assert(downloads_of(Seq::<DfuEvent>::empty()) == Seq::<Seq<u8>>::empty());
    } else {
        let st = pending[0];
        if st.state is DnLoadIdle || st.state is Error {
            lemma_downloads_single(DfuEvent::GetStatus);
        } else {
            lemma_poll_log_no_downloads(pending.skip(1));
            let e1 = seq![DfuEvent::GetStatus];
            let e2 = seq![DfuEvent::Delay(st.poll_timeout as int)];
            let head = seq![DfuEvent::GetStatus, DfuEvent::Delay(st.poll_timeout as int)];
            assert(head =~= e1 + e2);
            lemma_downloads_single(DfuEvent::GetStatus);
            lemma_downloads_single(DfuEvent::Delay(st.poll_timeout as int));
            lemma_downloads_concat(e1, e2);
            lemma_downloads_concat(head, poll_run(pending.skip(1)).log);
            assert(downloads_of(poll_run(pending).log) =~= Seq::<Seq<u8>>::empty());
        }
    }
}

/// Chunking law of a completed send: the downloads it issues are exactly
/// the fixed-size chunks of the payload, in order, followed by the single
/// zero-length terminator — never more, never fewer, whatever statuses
/// the device interleaved.
pub proof fn lemma_send_downloads(data: Seq<u8>, off: int, wait: bool, pending: Seq<DfuStatus>)
    requires
        dfu_send_run(data, off, wait, pending).status is Completed,
    ensures
        downloads_of(dfu_send_run(data, off, wait, pending).log) == dfu_chunks(data, off) + seq![
            Seq::<u8>::empty(),
        ],
    decreases data.len() - off,
{
    let m = dfu_send_run(data, off, wait, pending);
    if off < data.len() {
        let chunk = data.subrange(off, dfu_chunk_end(data, off));
        let p = poll_run(pending);
        lemma_poll_used_bounds(pending);
        assert(p.found);
        assert(poll_settled(pending).status is Success);
        let rec = dfu_send_run(data, dfu_chunk_end(data, off), wait, pending.skip(p.used));
        assert(m.status == rec.status);
        lemma_send_downloads(data, dfu_chunk_end(data, off), wait, pending.skip(p.used));
        lemma_poll_log_no_downloads(pending);
        let head = seq![DfuEvent::Download(chunk)];
        lemma_downloads_single(DfuEvent::Download(chunk));
        lemma_downloads_concat(head, p.log);
        lemma_downloads_concat(head + p.log, rec.log);
        assert(m.log == head + p.log + rec.log);
        assert(downloads_of(m.log) == downloads_of(head + p.log) + downloads_of(rec.log));
        assert(downloads_of(m.log) =~= dfu_chunks(data, off) + seq![Seq::<u8>::empty()]);
    } else {
        let dl = seq![DfuEvent::Download(Seq::<u8>::empty())];
        let gs = seq![DfuEvent::GetStatus];
        let base = seq![DfuEvent::Download(Seq::<u8>::empty()), DfuEvent::GetStatus];
        assert(base =~= dl + gs);
        lemma_downloads_single(DfuEvent::Download(Seq::<u8>::empty()));
        lemma_downloads_single(DfuEvent::GetStatus);
        lemma_downloads_concat(dl, gs);
        assert(downloads_of(base) =~= seq![Seq::<u8>::empty()]);
        assert(dfu_chunks(data, off) =~= Seq::<Seq<u8>>::empty());
        let st = pending[0];
        if st.state is Manifest && !wait {
            lemma_downloads_concat(base, seq![DfuEvent::Reboot]);
            lemma_downloads_single(DfuEvent::Reboot);
            assert(downloads_of(m.log) =~= dfu_chunks(data, off) + seq![Seq::<u8>::empty()]);
        } else {
            assert(downloads_of(m.log) =~= dfu_chunks(data, off) + seq![Seq::<u8>::empty()]);
        }
    }
}

} // verus!

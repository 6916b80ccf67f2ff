//! Cross-engine laws of the XMODEM model: a clean send round-trips through
//! the receive handshake, and retries neither block a transfer within the
//! error budget nor change what is sent.

use crate::crc::crc16_of;
use crate::xmodem::ACK;
use crate::xmodem::CRC_MODE;
use crate::xmodem::EOF;
use crate::xmodem::NAK;
use crate::xmodem::chunk_at;
use crate::xmodem::chunk_end;
use crate::xmodem::data_run;
use crate::xmodem::frame_bytes;
use crate::xmodem::header_for;
use crate::xmodem::next_num;
use crate::xmodem::padded;
use crate::xmodem::recv_run;
use crate::xmodem::send_model;
use crate::xmodem::start_run;
use crate::xmodem::valid_block_len;
use vstd::prelude::*;

verus! {

/// How many blocks a send of `data` emits from offset `off`.
pub open spec fn blocks_from(data: Seq<u8>, off: int, block_len: int) -> int
    decreases data.len() - off,
{
    if off >= data.len() || !valid_block_len(block_len) {
        0
    } else {
        1 + blocks_from(data, chunk_end(data, off, block_len), block_len)
    }
}

/// The frames a retry-free send emits for `data` from offset `off`.
pub open spec fn clean_frames(pad: u8, block_len: int, data: Seq<u8>, off: int, num: u8) -> Seq<
    u8,
>
    decreases data.len() - off,
{
    if off >= data.len() || !valid_block_len(block_len) {
        Seq::empty()
    } else {
        frame_bytes(block_len, pad, num, chunk_at(data, off, block_len)) + clean_frames(
            pad,
            block_len,
            data,
            chunk_end(data, off, block_len),
            next_num(num),
        )
    }
}

/// The padded payload stream of `data` from offset `off`: every chunk
/// filled to a whole block.
pub open spec fn padded_stream(pad: u8, block_len: int, data: Seq<u8>, off: int) -> Seq<u8>
    decreases data.len() - off,
{
    if off >= data.len() || !valid_block_len(block_len) {
        Seq::empty()
    } else {
        padded(chunk_at(data, off, block_len), pad, block_len) + padded_stream(
            pad,
            block_len,
            data,
            chunk_end(data, off, block_len),
        )
    }
}

/// The responses of a peer that acknowledges every block and the end of
/// transfer at once.
pub open spec fn clean_responses(data: Seq<u8>, block_len: int) -> Seq<u8> {
    seq![CRC_MODE] + Seq::new((blocks_from(data, 0, block_len) + 1) as nat, |i: int| ACK)
}

proof fn lemma_crc_be_split(c: u16)
    ensures
        ((((c >> 8) as u8) as u16) << 8) | (((c & 0xFF) as u8) as u16) == c,
{
    assert(((((c >> 8) as u8) as u16) << 8) | (((c & 0xFF) as u8) as u16) == c) by (bit_vector);
}

/// A data phase fed only acknowledgments completes, consuming one response
/// per block and writing exactly the clean frames.
proof fn lemma_data_run_clean(
    max_errors: int,
    pad: u8,
    block_len: int,
    data: Seq<u8>,
    off: int,
    num: u8,
    errors: int,
    s: Seq<u8>,
)
    requires
        valid_block_len(block_len),
        0 <= errors <= max_errors,
        s.len() >= blocks_from(data, off, block_len),
        forall|i: int| 0 <= i < blocks_from(data, off, block_len) ==> s[i] == ACK,
    ensures
        ({
            let d = data_run(max_errors, pad, block_len, data, off, num, errors, 0, s);
            d.status is Completed && d.used == blocks_from(data, off, block_len) && d.wire
                == clean_frames(pad, block_len, data, off, num)
        }),
    decreases data.len() - off,
{
    if off >= data.len() {
    } else {
        let ce = chunk_end(data, off, block_len);
        let fr = frame_bytes(block_len, pad, num, chunk_at(data, off, block_len));
        assert(blocks_from(data, off, block_len) == 1 + blocks_from(data, ce, block_len));
        assert(blocks_from(data, ce, block_len) >= 0) by {
            lemma_blocks_from_nonneg(data, ce, block_len);
        }
        assert(s.len() >= 1);
        assert(s[0] == ACK);
        assert(forall|i: int|
            0 <= i < blocks_from(data, ce, block_len) ==> s.skip(1)[i] == s[i + 1] && s[i + 1]
                == ACK);
        lemma_data_run_clean(max_errors, pad, block_len, data, ce, next_num(num), errors, s.skip(1));
        let rec_model = data_run(
            max_errors,
            pad,
            block_len,
            data,
            off + block_len,
            next_num(num),
            errors,
            0,
            s.skip(1),
        );
        let rec_ce = data_run(max_errors, pad, block_len, data, ce, next_num(num), errors, 0, s.skip(1));
        assert(rec_model == rec_ce);
        let d = data_run(max_errors, pad, block_len, data, off, num, errors, 0, s);
        assert(d.wire == fr + rec_ce.wire);
        assert(fr + rec_ce.wire == clean_frames(pad, block_len, data, off, num));
    }
}

/// Block counts are never negative.
proof fn lemma_blocks_from_nonneg(data: Seq<u8>, off: int, block_len: int)
    ensures
        blocks_from(data, off, block_len) >= 0,
    decreases data.len() - off,
{
    if !(off >= data.len() || !valid_block_len(block_len)) {
        lemma_blocks_from_nonneg(data, chunk_end(data, off, block_len), block_len);
    }
}

/// A whole send against an always-acknowledging peer completes and puts
/// exactly the clean frames and the end-of-transfer byte on the wire.
pub proof fn lemma_send_model_clean(max_errors: int, pad: u8, block_len: int, data: Seq<u8>)
    requires
        valid_block_len(block_len),
        max_errors >= 0,
    ensures
        ({
            let m = send_model(max_errors, pad, block_len, data, clean_responses(data, block_len));
            m.status is Completed && m.wire == clean_frames(pad, block_len, data, 0, 1) + seq![EOF]
        }),
{
    let s = clean_responses(data, block_len);
    let n = blocks_from(data, 0, block_len);
    lemma_blocks_from_nonneg(data, 0, block_len);
    assert(s[0] == CRC_MODE);
    assert(s.len() == n + 2);
    let st = start_run(s, 0);
    assert(st.status is Completed && st.used == 1);
    assert(forall|i: int| 0 <= i < n ==> s.skip(1)[i] == s[i + 1] && s[i + 1] == ACK);
    lemma_data_run_clean(max_errors, pad, block_len, data, 0, 1, 0, s.skip(1));
    let d = data_run(max_errors, pad, block_len, data, 0, 1, 0, 0, s.skip(1));
    assert(d.used == n);
    assert(s.len() != st.used + d.used);
}

/// A receiver fed the clean frames followed by the end-of-transfer byte
/// accepts every block: it completes, the sink holds the padded payload
/// stream, and every response is an acknowledgment.
pub proof fn lemma_recv_clean(
    max_errors: int,
    pad: u8,
    block_len: int,
    data: Seq<u8>,
    off: int,
    num: u8,
    errors: int,
)
    requires
        valid_block_len(block_len),
        0 <= off,
        0 <= errors <= max_errors,
    ensures
        ({
            let w = clean_frames(pad, block_len, data, off, num) + seq![EOF];
            let r = recv_run(max_errors, num, errors, w);
            r.status is Completed && r.data == padded_stream(pad, block_len, data, off) && r.resp
                == Seq::new((blocks_from(data, off, block_len) + 1) as nat, |i: int| ACK)
        }),
    decreases data.len() - off,
{
    let w = clean_frames(pad, block_len, data, off, num) + seq![EOF];
    let r = recv_run(max_errors, num, errors, w);
    lemma_blocks_from_nonneg(data, off, block_len);
    if off >= data.len() {
        assert(w =~= seq![EOF]);
        assert(r.resp =~= Seq::new(1, |i: int| ACK));
    } else {
        let ce = chunk_end(data, off, block_len);
        let chunk = chunk_at(data, off, block_len);
        let payload = padded(chunk, pad, block_len);
        let c = crc16_of(payload);
        let fr = frame_bytes(block_len, pad, num, chunk);
        let rest = clean_frames(pad, block_len, data, ce, next_num(num)) + seq![EOF];
        assert(w =~= fr + rest);
        assert(chunk.len() == ce - off);
        assert(chunk.len() <= block_len);
        assert(payload.len() == chunk.len() + (block_len - chunk.len()));
        assert(payload.len() == block_len);
        assert(fr.len() == 5 + block_len);
        assert(w.len() >= 5 + block_len + 1);
        assert(w[0] == header_for(block_len));
        assert(w[1] == num);
        assert(w[2] == (255 - num) as u8);
        assert(w.subrange(3, 3 + block_len) =~= payload);
        assert(w[3 + block_len] == (c >> 8) as u8);
        assert(w[4 + block_len] == (c & 0xFF) as u8);
        lemma_crc_be_split(c);
        assert(num == 255 - ((255 - num) as u8));
        lemma_recv_clean(max_errors, pad, block_len, data, ce, next_num(num), errors);
        assert(w.skip(5 + block_len) =~= rest);
        let rec = recv_run(max_errors, next_num(num), errors, rest);
        assert(r.data == payload + rec.data);
        assert(r.resp == seq![ACK] + rec.resp);
        assert(r.resp =~= Seq::new((blocks_from(data, off, block_len) + 1) as nat, |i: int| ACK));
    }
}

/// The padded stream is the original data followed by padding: its prefix
/// of the original length is the original data.
pub proof fn lemma_padded_stream_prefix(pad: u8, block_len: int, data: Seq<u8>, off: int)
    requires
        valid_block_len(block_len),
        0 <= off <= data.len(),
    ensures
        padded_stream(pad, block_len, data, off).len() >= data.len() - off,
        padded_stream(pad, block_len, data, off).take(data.len() - off) == data.skip(off),
    decreases data.len() - off,
{
    let ps = padded_stream(pad, block_len, data, off);
    if off >= data.len() {
        assert(ps.take(0) =~= data.skip(off));
    } else {
        let ce = chunk_end(data, off, block_len);
        let chunk = chunk_at(data, off, block_len);
        let payload = padded(chunk, pad, block_len);
        lemma_padded_stream_prefix(pad, block_len, data, ce);
        assert(ps =~= payload + padded_stream(pad, block_len, data, ce));
        if ce == data.len() {
            assert(padded_stream(pad, block_len, data, ce) =~= Seq::empty());
            assert(ps.take(data.len() - off) =~= payload.take(data.len() - off));
            assert(payload.take(chunk.len() as int) =~= chunk);
            assert(chunk =~= data.skip(off));
        } else {
            assert(payload =~= chunk);
            assert(ps.take(data.len() - off) =~= chunk + padded_stream(
                pad,
                block_len,
                data,
                ce,
            ).take(data.len() - ce));
            assert(chunk + data.skip(ce) =~= data.skip(off));
        }
    }
}

/// Round-trip law: the wire written by a send that the peer fully
/// acknowledges, decoded by the receive handshake, completes and
/// reproduces the original byte stream exactly on its meaningful prefix.
/// The sink's length is a whole number of blocks; the frame does not carry
/// the real payload length, so the bytes beyond `data.len()` are the pad
/// fill of the final short block.
pub proof fn lemma_xmodem_round_trip(max_errors: int, pad: u8, block_len: int, data: Seq<u8>)
    requires
        valid_block_len(block_len),
        max_errors >= 0,
    ensures
        ({
            let m = send_model(max_errors, pad, block_len, data, clean_responses(data, block_len));
            let r = recv_run(max_errors, 1, 0, m.wire);
            m.status is Completed && r.status is Completed && r.data.len() >= data.len()
                && r.data.take(data.len() as int) == data
        }),
{
    lemma_send_model_clean(max_errors, pad, block_len, data);
    lemma_recv_clean(max_errors, pad, block_len, data, 0, 1, 0);
    lemma_padded_stream_prefix(pad, block_len, data, 0);
    let m = send_model(max_errors, pad, block_len, data, clean_responses(data, block_len));
    assert(m.wire == clean_frames(pad, block_len, data, 0, 1) + seq![EOF]);
    assert(data.skip(0) =~= data);
}

/// `fr` repeated `k` times.
pub open spec fn repeated(fr: Seq<u8>, k: nat) -> Seq<u8>
    decreases k,
{
    if k == 0 {
        Seq::empty()
    } else {
        fr + repeated(fr, (k - 1) as nat)
    }
}

/// The responses of a peer that NAKs each block `reps[i]` times before
/// acknowledging it.
pub open spec fn retry_responses(reps: Seq<nat>) -> Seq<u8>
    decreases reps.len(),
{
    if reps.len() == 0 {
        Seq::empty()
    } else {
        Seq::new(reps[0], |i: int| NAK) + seq![ACK] + retry_responses(reps.skip(1))
    }
}

/// Total number of negative acknowledgments in `reps`.
pub open spec fn sum_of(reps: Seq<nat>) -> int
    decreases reps.len(),
{
    if reps.len() == 0 {
        0
    } else {
        reps[0] + sum_of(reps.skip(1))
    }
}

/// The wire of a send whose block `i` is retransmitted `reps[i]` times:
/// every copy of a block's frame is the identical clean frame.
pub open spec fn retry_wire(
    pad: u8,
    block_len: int,
    data: Seq<u8>,
    off: int,
    num: u8,
    reps: Seq<nat>,
) -> Seq<u8>
    decreases data.len() - off,
{
    if off >= data.len() || !valid_block_len(block_len) {
        Seq::empty()
    } else {
        let k: nat = if reps.len() > 0 {
            reps[0]
        } else {
            0
        };
        let tail: Seq<nat> = if reps.len() > 0 {
            reps.skip(1)
        } else {
            reps
        };
        repeated(frame_bytes(block_len, pad, num, chunk_at(data, off, block_len)), (k + 1) as nat)
            + retry_wire(pad, block_len, data, chunk_end(data, off, block_len), next_num(num), tail)
    }
}

proof fn lemma_sum_of_nonneg(reps: Seq<nat>)
    ensures
        sum_of(reps) >= 0,
    decreases reps.len(),
{
    if reps.len() > 0 {
        lemma_sum_of_nonneg(reps.skip(1));
    }
}

/// One block under `k` NAKs then an ACK: the sender writes the identical
/// frame `k + 1` times, accumulates `k` errors, and moves on.
proof fn lemma_block_retries(
    max_errors: int,
    pad: u8,
    block_len: int,
    data: Seq<u8>,
    off: int,
    num: u8,
    errors: int,
    k: nat,
    rest: Seq<u8>,
)
    requires
        valid_block_len(block_len),
        0 <= off < data.len(),
        0 <= errors,
        errors + k <= max_errors,
    ensures
        ({
            let s = Seq::new(k, |i: int| NAK) + seq![ACK] + rest;
            let d = data_run(max_errors, pad, block_len, data, off, num, errors, 0, s);
            let fr = frame_bytes(block_len, pad, num, chunk_at(data, off, block_len));
            let rec = data_run(
                max_errors,
                pad,
                block_len,
                data,
                off + block_len,
                next_num(num),
                errors + k,
                0,
                rest,
            );
            d.status == rec.status && d.wire == repeated(fr, (k + 1) as nat) + rec.wire && d.used
                == k + 1 + rec.used
        }),
    decreases k,
{
    let s = Seq::new(k, |i: int| NAK) + seq![ACK] + rest;
    let fr = frame_bytes(block_len, pad, num, chunk_at(data, off, block_len));
    if k == 0 {
        assert(s[0] == ACK);
        assert(s.skip(1) =~= rest);
        let rec = data_run(
            max_errors,
            pad,
            block_len,
            data,
            off + block_len,
            next_num(num),
            errors,
            0,
            rest,
        );
        assert(repeated(fr, 1) =~= fr + Seq::<u8>::empty());
        assert(repeated(fr, 1) =~= fr);
        assert(fr + rec.wire =~= repeated(fr, 1) + rec.wire);
    } else {
        assert(s[0] == NAK);
        assert(s.skip(1) =~= Seq::new((k - 1) as nat, |i: int| NAK) + seq![ACK] + rest);
        lemma_block_retries(
            max_errors,
            pad,
            block_len,
            data,
            off,
            num,
            errors + 1,
            (k - 1) as nat,
            rest,
        );
        let rec = data_run(
            max_errors,
            pad,
            block_len,
            data,
            off + block_len,
            next_num(num),
            errors + k,
            0,
            rest,
        );
        let dtail = data_run(max_errors, pad, block_len, data, off, num, errors + 1, 0, s.skip(1));
        assert(fr + dtail.wire =~= fr + (repeated(fr, k) + rec.wire));
        assert(fr + (repeated(fr, k) + rec.wire) =~= (fr + repeated(fr, k)) + rec.wire);
        assert(fr + repeated(fr, k) =~= repeated(fr, (k + 1) as nat));
    }
}

/// A data phase under the retry pattern `reps` completes whenever the
/// total retry count fits the error budget, and writes each block's frame
/// `reps[i] + 1` times.
proof fn lemma_data_run_retries(
    max_errors: int,
    pad: u8,
    block_len: int,
    data: Seq<u8>,
    off: int,
    num: u8,
    errors: int,
    reps: Seq<nat>,
    extra: Seq<u8>,
)
    requires
        valid_block_len(block_len),
        0 <= off,
        reps.len() == blocks_from(data, off, block_len),
        0 <= errors,
        errors + sum_of(reps) <= max_errors,
    ensures
        ({
            let s = retry_responses(reps) + extra;
            let d = data_run(max_errors, pad, block_len, data, off, num, errors, 0, s);
            d.status is Completed && d.used == retry_responses(reps).len() && d.wire == retry_wire(
                pad,
                block_len,
                data,
                off,
                num,
                reps,
            )
        }),
    decreases data.len() - off,
{
    let s = retry_responses(reps) + extra;
    if off >= data.len() {
        assert(reps.len() == 0);
        assert(retry_responses(reps).len() == 0);
    } else {
        let ce = chunk_end(data, off, block_len);
        lemma_blocks_from_nonneg(data, ce, block_len);
        assert(blocks_from(data, off, block_len) == 1 + blocks_from(data, ce, block_len));
        assert(reps.len() >= 1);
        let k = reps[0];
        let tail = retry_responses(reps.skip(1)) + extra;
        lemma_sum_of_nonneg(reps.skip(1));
        assert(sum_of(reps) == reps[0] + sum_of(reps.skip(1)));
        assert(errors + k <= max_errors);
        assert(retry_responses(reps) == Seq::new(reps[0], |i: int| NAK) + seq![ACK]
            + retry_responses(reps.skip(1)));
        assert(s =~= Seq::new(k, |i: int| NAK) + seq![ACK] + tail);
        lemma_block_retries(max_errors, pad, block_len, data, off, num, errors, k, tail);
        lemma_data_run_retries(
            max_errors,
            pad,
            block_len,
            data,
            ce,
            next_num(num),
            errors + k,
            reps.skip(1),
            extra,
        );
        let rec_model = data_run(
            max_errors,
            pad,
            block_len,
            data,
            off + block_len,
            next_num(num),
            errors + k,
            0,
            tail,
        );
        let rec_ce = data_run(
            max_errors,
            pad,
            block_len,
            data,
            ce,
            next_num(num),
            errors + k,
            0,
            tail,
        );
        assert(rec_model == rec_ce);
        let fr = frame_bytes(block_len, pad, num, chunk_at(data, off, block_len));
        let d = data_run(max_errors, pad, block_len, data, off, num, errors, 0, s);
        assert(d.wire == repeated(fr, (k + 1) as nat) + rec_ce.wire);
        assert(d.wire =~= retry_wire(pad, block_len, data, off, num, reps));
        assert(retry_responses(reps).len() == k + 1 + retry_responses(reps.skip(1)).len());
    }
}

/// Retry-idempotence law: if the peer NAKs block `i` exactly `reps[i]`
/// times before acknowledging it, and the total number of NAKs is within
/// the error budget, the sender still completes; and because every
/// retransmitted copy is the identical clean frame for that block (visible
/// in `retry_wire`), the block the peer finally acknowledges carries the
/// same payload as in a retry-free run, so the stream the peer
/// reconstructs is unaffected by the number of retries.
pub proof fn lemma_send_retry_idempotent(
    max_errors: int,
    pad: u8,
    block_len: int,
    data: Seq<u8>,
    reps: Seq<nat>,
)
    requires
        valid_block_len(block_len),
        reps.len() == blocks_from(data, 0, block_len),
        sum_of(reps) <= max_errors,
    ensures
        ({
            let s = seq![CRC_MODE] + retry_responses(reps) + seq![ACK];
            let m = send_model(max_errors, pad, block_len, data, s);
            m.status is Completed && m.wire == retry_wire(pad, block_len, data, 0, 1, reps)
                + seq![EOF]
        }),
{
    let s = seq![CRC_MODE] + retry_responses(reps) + seq![ACK];
    let st = start_run(s, 0);
    assert(s[0] == CRC_MODE);
    assert(st.status is Completed && st.used == 1);
    assert(s.skip(1) =~= retry_responses(reps) + seq![ACK]);
    lemma_data_run_retries(max_errors, pad, block_len, data, 0, 1, 0, reps, seq![ACK]);
    let d = data_run(max_errors, pad, block_len, data, 0, 1, 0, 0, s.skip(1));
    assert(d.used == retry_responses(reps).len());
    assert(s.len() == 2 + retry_responses(reps).len());
    assert(s.len() != st.used + d.used);
}

/// With no retries requested, the retried wire is the clean wire.
pub proof fn lemma_retry_wire_no_retries(
    pad: u8,
    block_len: int,
    data: Seq<u8>,
    off: int,
    num: u8,
    reps: Seq<nat>,
)
    requires
        forall|i: int| 0 <= i < reps.len() ==> reps[i] == 0,
    ensures
        retry_wire(pad, block_len, data, off, num, reps) == clean_frames(
            pad,
            block_len,
            data,
            off,
            num,
        ),
    decreases data.len() - off,
{
    if off >= data.len() || !valid_block_len(block_len) {
    } else {
        let fr = frame_bytes(block_len, pad, num, chunk_at(data, off, block_len));
        let k: nat = if reps.len() > 0 {
            reps[0]
        } else {
            0
        };
        assert(k == 0);
        assert(repeated(fr, 0) == Seq::<u8>::empty());
        assert(repeated(fr, 1) =~= fr + Seq::<u8>::empty());
        assert(repeated(fr, 1) =~= fr);
        let tail: Seq<nat> = if reps.len() > 0 {
            reps.skip(1)
        } else {
            reps
        };
        assert(forall|i: int| 0 <= i < tail.len() ==> tail[i] == 0);
        lemma_retry_wire_no_retries(
            pad,
            block_len,
            data,
            chunk_end(data, off, block_len),
            next_num(num),
            tail,
        );
        assert(retry_wire(pad, block_len, data, off, num, reps) =~= clean_frames(
            pad,
            block_len,
            data,
            off,
            num,
        ));
    }
}

} // verus!

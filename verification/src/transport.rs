//! The byte-stream channel capability that the XMODEM engine drives.
//!
//! The engine is generic over any blocking, half-duplex byte channel. The
//! channel's ghost model is the sequence of bytes the peer will deliver
//! (`incoming`) and the bytes written so far (`sent`); the engine's contracts
//! are stated as functions of the delivered bytes.

use vstd::prelude::*;

verus! {

/// An error surfaced by the underlying channel (a read that failed hard, a
/// link disconnect). The engines propagate it unmodified.
#[derive(Debug)]
pub struct TransportError {
    pub message: String,
}

/// A blocking byte-stream channel.
///
/// `incoming()` is the sequence of bytes the peer will deliver, oldest
/// first; a successful read consumes a prefix of it and a read fails once
/// it can deliver nothing (a timeout, a closed link). `sent()` records every
/// byte written. An implementation supplies the real I/O; the engines are
/// verified against this model alone.
pub trait ByteTransport: Sized {
    /// The bytes the peer will deliver on this channel, oldest first.
    /// An implementation outside the verified world may leave the default,
    /// which models a channel that delivers nothing.
    open spec fn incoming(&self) -> Seq<u8> {
        Seq::empty()
    }

    /// Every byte written to the channel so far, oldest first.
    open spec fn sent(&self) -> Seq<u8> {
        Seq::empty()
    }

    /// Blocking read of a single byte.
    fn read_byte(&mut self) -> (r: Result<u8, TransportError>)
        ensures
            final(self).sent() == old(self).sent(),
            match r {
                Ok(b) => old(self).incoming().len() > 0 && b == old(self).incoming()[0]
                    && final(self).incoming() == old(self).incoming().skip(1),
                Err(_) => final(self).incoming() == old(self).incoming(),
            },
    ;

    /// Blocking read of at least one and at most `max` bytes (a short read
    /// is allowed, as on a raw serial port).
    fn read_upto(&mut self, max: usize) -> (r: Result<Vec<u8>, TransportError>)
        requires
            max >= 1,
        ensures
            final(self).sent() == old(self).sent(),
            match r {
                Ok(v) => 1 <= v.len() <= max && v.len() <= old(self).incoming().len()
                    && v@ == old(self).incoming().take(v.len() as int)
                    && final(self).incoming() == old(self).incoming().skip(v.len() as int),
                Err(_) => final(self).incoming() == old(self).incoming(),
            },
    ;

    /// Blocking write of the whole buffer.
    fn write_bytes(&mut self, data: &[u8]) -> (r: Result<(), TransportError>)
        ensures
            final(self).incoming() == old(self).incoming(),
            match r {
                Ok(()) => final(self).sent() == old(self).sent() + data@,
                Err(_) => final(self).sent() == old(self).sent(),
            },
    ;
}

/// A scripted channel: it delivers a fixed byte script and records every
/// byte written. It stands in for the peer when exercising the engines.
pub struct ScriptedTransport {
    script: Vec<u8>,
    pos: usize,
    written: Vec<u8>,
}

impl ScriptedTransport {
    /// A channel that will deliver exactly `script`.
    pub fn new(script: Vec<u8>) -> (r: ScriptedTransport)
        ensures
            r.incoming() == script@,
            r.sent() == Seq::<u8>::empty(),
    {
        let r = ScriptedTransport { script, pos: 0, written: Vec::new() };
        proof {
            assert(r.script@.skip(0) =~= r.script@);
        }
        r
    }

    /// The bytes the engine has written so far.
    pub fn written(&self) -> (r: &Vec<u8>)
        ensures
            r@ == self.sent(),
    {
        &self.written
    }

    /// How many scripted bytes are still undelivered.
    pub fn remaining(&self) -> (r: usize)
        ensures
            r == self.incoming().len(),
    {
        if self.pos <= self.script.len() {
            self.script.len() - self.pos
        } else {
            0
        }
    }
}

impl ByteTransport for ScriptedTransport {
    closed spec fn incoming(&self) -> Seq<u8> {
        if self.pos <= self.script@.len() {
            self.script@.skip(self.pos as int)
        } else {
            Seq::empty()
        }
    }

    closed spec fn sent(&self) -> Seq<u8> {
        self.written@
    }

    fn read_byte(&mut self) -> (r: Result<u8, TransportError>) {
        if self.pos < self.script.len() {
            let b = self.script[self.pos];
            self.pos = self.pos + 1;
            proof {
                assert(old(self).script@.skip(old(self).pos as int).skip(1)
                    =~= self.script@.skip(self.pos as int));
            }
            Ok(b)
        } else {
            Err(TransportError { message: "end of scripted input".to_owned() })
        }
    }

    fn read_upto(&mut self, max: usize) -> (r: Result<Vec<u8>, TransportError>) {
        if self.pos >= self.script.len() {
            return Err(TransportError { message: "end of scripted input".to_owned() });
        }
        let avail = self.script.len() - self.pos;
        let n = if max < avail {
            max
        } else {
            avail
        };
        let mut v: Vec<u8> = Vec::new();
        let mut i: usize = 0;
        while i < n
            invariant
                i <= n,
                n + self.pos <= self.script.len(),
                v@ == self.script@.subrange(self.pos as int, self.pos + i),
            decreases n - i,
        {
            v.push(self.script[self.pos + i]);
            proof {
                assert(self.script@.subrange(self.pos as int, self.pos + i).push(
                    self.script@[self.pos + i]) =~= self.script@.subrange(
                    self.pos as int,
                    self.pos + i + 1,
                ));
            }
            i = i + 1;
        }
        let ghost before = self.script@.skip(self.pos as int);
        self.pos = self.pos + n;
        proof {
            assert(v@ =~= before.take(n as int));
            assert(before.skip(n as int) =~= self.script@.skip(self.pos as int));
        }
        Ok(v)
    }

    fn write_bytes(&mut self, data: &[u8]) -> (r: Result<(), TransportError>) {
        let mut i: usize = 0;
        while i < data.len()
            invariant
                i <= data.len(),
                self.written@ == old(self).written@ + data@.take(i as int),
                self.script == old(self).script,
                self.pos == old(self).pos,
            decreases data.len() - i,
        {
            self.written.push(data[i]);
            proof {
                assert(old(self).written@ + data@.take(i as int).push(data@[i as int])
                    =~= old(self).written@ + data@.take(i + 1));
            }
            i = i + 1;
        }
        proof {
            assert(data@.take(data@.len() as int) =~= data@);
        }
        Ok(())
    }
}

} // verus!

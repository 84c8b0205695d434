//! The transport boundary and its ghost model. A transport carries one
//! bounded-time bulk transfer per call; the model makes the outcomes of
//! those calls — and nothing else about the carrier — visible to
//! specifications. On top of it, spec-level machines say what the engine's
//! write loop, its timeout-retrying read loop, and a whole exchange make of
//! any sequence of outcomes; the engine's contracts are stated against them.

use vstd::prelude::*;
use crate::reply::{spec_decode, ReplyModel};

verus! {

/// What one transport transfer can come to besides bytes moved: a timeout of
/// the transport's own fixed per-call deadline, or a fatal transport error.
#[derive(Debug, Clone)]
pub enum IoError {
    TimedOut,
    Fatal(String),
}

/// The message an [`IoError`] surfaces as.
pub open spec fn spec_io_message(e: IoError) -> Seq<char> {
    match e {
        IoError::TimedOut => "timed out"@,
        IoError::Fatal(m) => m@,
    }
}

impl IoError {
    /// The message this error surfaces as.
    pub fn into_message(self) -> (r: String)
        ensures
            r@ == spec_io_message(self),
    {
        match self {
            IoError::TimedOut => "timed out".to_owned(),
            IoError::Fatal(m) => m,
        }
    }
}

/// One read, as the model sees it: the bytes of a completed transfer, a
/// single-attempt timeout, or a fatal transport error with its message.
pub enum ReadEvent {
    Bytes(Seq<u8>),
    TimedOut,
    Fatal(Seq<char>),
}

/// One write attempt, as the model sees it: the device accepts `count` bytes
/// of the buffer (all of it, when the buffer is shorter), or the attempt
/// times out or fails.
pub enum WriteEvent {
    Accepted(nat),
    TimedOut,
    Fatal(Seq<char>),
}

/// How many bytes an `Accepted(count)` event moves out of a buffer of length
/// `len`.
pub open spec fn accepted_count(count: nat, len: nat) -> nat {
    if count <= len {
        count
    } else {
        len
    }
}

/// The returned value `r` is the one the read event `ev` describes.
pub open spec fn read_matches(r: Result<Vec<u8>, IoError>, ev: ReadEvent) -> bool {
    match ev {
        ReadEvent::Bytes(b) => r matches Ok(v) && v@ == b,
        ReadEvent::TimedOut => r == Err::<Vec<u8>, IoError>(IoError::TimedOut),
        ReadEvent::Fatal(m) => r matches Err(IoError::Fatal(mm)) && mm@ == m,
    }
}

/// A blocking duplex byte channel with bounded-time transfers: what the
/// protocol engine asks of its carrier.
///
/// `read` and `write` are one bulk transfer each, raced against the
/// transport's own fixed timeout. The three spec methods are the channel's
/// ghost model: a prophecy of the outcomes its next transfers will come to,
/// and the stream of bytes it has accepted so far. They exist only in
/// specifications; an implementation answers for its `read`/`write`
/// contracts itself, and the protocol operations are verified against them.
/// An implementation that keeps the default, empty model promises nothing:
/// the `read`/`write` contracts below are then vacuous, and so is every
/// engine contract stated over the model.
pub trait Transport: Sized {
    /// The outcomes this channel's next reads will come to, oldest first.
    open spec fn future_reads(&self) -> Seq<ReadEvent> {
        Seq::empty()
    }

    /// The outcomes this channel's next write attempts will come to, oldest
    /// first.
    open spec fn future_writes(&self) -> Seq<WriteEvent> {
        Seq::empty()
    }

    /// Every byte the channel has accepted from writes so far, as one
    /// stream.
    open spec fn sent(&self) -> Seq<u8> {
        Seq::empty()
    }

    /// One bounded-time receive: the bytes of one transfer, a timeout, or a
    /// fatal transport error — whichever the next read event describes.
    fn read(&mut self) -> (r: Result<Vec<u8>, IoError>)
        ensures
            old(self).future_reads().len() > 0 ==> ({
                &&& read_matches(r, old(self).future_reads()[0])
                &&& final(self).future_reads() == old(self).future_reads().drop_first()
                &&& final(self).future_writes() == old(self).future_writes()
                &&& final(self).sent() == old(self).sent()
            }),
    ;

    /// One bounded-time send: how many leading bytes of `buf` the device
    /// accepted, a timeout, or a fatal transport error — whichever the next
    /// write event describes. Accepted bytes join the sent stream.
    fn write(&mut self, buf: &[u8]) -> (r: Result<usize, IoError>)
        ensures
            r matches Ok(n) ==> n <= buf@.len(),
            old(self).future_writes().len() > 0 ==> ({
                let ev = old(self).future_writes()[0];
                &&& final(self).future_writes() == old(self).future_writes().drop_first()
                &&& final(self).future_reads() == old(self).future_reads()
                &&& (match ev {
                    WriteEvent::Accepted(count) => {
                        let n = accepted_count(count, buf@.len());
                        &&& r == Ok::<usize, IoError>(n as usize)
                        &&& final(self).sent() == old(self).sent() + buf@.take(n as int)
                    },
                    WriteEvent::TimedOut => {
                        &&& r == Err::<usize, IoError>(IoError::TimedOut)
                        &&& final(self).sent() == old(self).sent()
                    },
                    WriteEvent::Fatal(m) => {
                        &&& r matches Err(IoError::Fatal(mm)) && mm@ == m
                        &&& final(self).sent() == old(self).sent()
                    },
                })
            }),
    ;
}

/// What the engine's retrying read loop makes of a read script: skip the
/// timeouts, then decode the first completed transfer (or surface its fatal
/// error, or the too-short framing violation). `complete` says the script
/// reached a decision.
pub struct ReadRun {
    pub result: Result<ReplyModel, Seq<char>>,
    pub consumed: nat,
    pub complete: bool,
}

/// Runs the read script of the exchange's retry loop.
pub open spec fn spec_read_loop(reads: Seq<ReadEvent>) -> ReadRun
    decreases reads.len(),
{
    if reads.len() == 0 {
        ReadRun { result: Err("timed out"@), consumed: 0, complete: false }
    } else {
        match reads[0] {
            ReadEvent::TimedOut => {
                let rest = spec_read_loop(reads.drop_first());
                ReadRun {
                    result: rest.result,
                    consumed: (1 + rest.consumed) as nat,
                    complete: rest.complete,
                }
            },
            ReadEvent::Fatal(m) => ReadRun { result: Err(m), consumed: 1, complete: true },
            ReadEvent::Bytes(b) => ReadRun {
                result: if b.len() >= 4 {
                    Ok(spec_decode(b))
                } else {
                    Err("reply too short"@)
                },
                consumed: 1,
                complete: true,
            },
        }
    }
}

/// What the engine's write loop makes of a write script and a payload:
/// short writes continue where they left off; a write that moves nothing, a
/// timeout and a fatal error all end the loop. `sent` is what reached the
/// channel, `complete` says the script reached a decision.
pub struct WriteRun {
    pub outcome: Result<(), Seq<char>>,
    pub consumed: nat,
    pub sent: Seq<u8>,
    pub complete: bool,
}

/// Runs the write script of the engine's write-in-full loop.
pub open spec fn spec_write_all(writes: Seq<WriteEvent>, data: Seq<u8>) -> WriteRun
    decreases data.len(),
{
    if data.len() == 0 {
        WriteRun { outcome: Ok(()), consumed: 0, sent: Seq::empty(), complete: true }
    } else if writes.len() == 0 {
        WriteRun { outcome: Err("timed out"@), consumed: 0, sent: Seq::empty(), complete: false }
    } else {
        match writes[0] {
            WriteEvent::Accepted(count) => {
                let n = accepted_count(count, data.len());
                if n == 0 {
                    WriteRun {
                        outcome: Err("failed to write whole buffer"@),
                        consumed: 1,
                        sent: Seq::empty(),
                        complete: true,
                    }
                } else {
                    let rest = spec_write_all(writes.drop_first(), data.skip(n as int));
                    WriteRun {
                        outcome: rest.outcome,
                        consumed: (1 + rest.consumed) as nat,
                        sent: data.take(n as int) + rest.sent,
                        complete: rest.complete,
                    }
                }
            },
            WriteEvent::TimedOut => WriteRun {
                outcome: Err("timed out"@),
                consumed: 1,
                sent: Seq::empty(),
                complete: true,
            },
            WriteEvent::Fatal(m) => WriteRun {
                outcome: Err(m),
                consumed: 1,
                sent: Seq::empty(),
                complete: true,
            },
        }
    }
}

/// A write-in-full run that succeeds sent exactly its payload.
pub proof fn lemma_write_all_ok_sends_all(writes: Seq<WriteEvent>, data: Seq<u8>)
    ensures
        spec_write_all(writes, data).outcome is Ok ==> spec_write_all(writes, data).sent == data,
    decreases data.len(),
{
    if data.len() == 0 {
        assert(spec_write_all(writes, data).sent =~= data);
    } else if writes.len() > 0 {
        match writes[0] {
            WriteEvent::Accepted(count) => {
                let n = accepted_count(count, data.len());
                if n > 0 {
                    lemma_write_all_ok_sends_all(writes.drop_first(), data.skip(n as int));
                    if spec_write_all(writes, data).outcome is Ok {
                        assert(data.take(n as int) + data.skip(n as int) =~= data);
                    }
                }
            },
            WriteEvent::TimedOut => {},
            WriteEvent::Fatal(_) => {},
        }
    }
}

/// What one whole exchange makes of the transport's scripts: the write in
/// full, then — only when it went through — the retrying read.
pub struct ExchangeRun {
    pub result: Result<ReplyModel, Seq<char>>,
    pub writes_consumed: nat,
    pub reads_consumed: nat,
    pub sent: Seq<u8>,
    pub complete: bool,
}

/// Runs both scripts of one exchange of `payload` against the device.
pub open spec fn spec_exchange(
    writes: Seq<WriteEvent>,
    reads: Seq<ReadEvent>,
    payload: Seq<u8>,
) -> ExchangeRun {
    let w = spec_write_all(writes, payload);
    match w.outcome {
        Err(m) => ExchangeRun {
            result: Err(m),
            writes_consumed: w.consumed,
            reads_consumed: 0,
            sent: w.sent,
            complete: w.complete,
        },
        Ok(_) => {
            let r = spec_read_loop(reads);
            ExchangeRun {
                result: r.result,
                writes_consumed: w.consumed,
                reads_consumed: r.consumed,
                sent: w.sent,
                complete: w.complete && r.complete,
            }
        },
    }
}

/// The scripts decide this exchange, within the retry bound the engine
/// holds. Contracts over the model are stated under this condition: past it
/// the model says nothing about the channel, so neither can they.
pub open spec fn exchange_applies(run: ExchangeRun) -> bool {
    run.complete && run.reads_consumed <= usize::MAX
}

/// An exchange that came back with a reply sent exactly its payload: a reply
/// is read only after the write went through in full.
pub proof fn lemma_sent_on_reply(writes: Seq<WriteEvent>, reads: Seq<ReadEvent>, payload: Seq<u8>)
    ensures
        spec_exchange(writes, reads, payload).result is Ok ==> spec_exchange(
            writes,
            reads,
            payload,
        ).sent == payload,
{
    lemma_write_all_ok_sends_all(writes, payload);
}

} // verus!

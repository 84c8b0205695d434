//! The protocol engine: command encoding, the synchronous exchange with its
//! timeout-tolerant read loop, and the interpretation of each reply.

use vstd::prelude::*;
use vstd::slice::slice_subrange;
use vstd::string::StringSliceAdditionalSpecFns;
use crate::hex::{encode_hex8, hex8};
use crate::reply::{decode, Reply, ReplyModel};
pub use crate::transport::{IoError, Transport};
use crate::transport::{
    exchange_applies, lemma_sent_on_reply, spec_exchange, spec_read_loop, spec_write_all,
    ReadEvent, WriteEvent,
};

verus! {

/// Result wrapper that yields either a successful result of a fastboot
/// operation or an error [`String`].
pub type FbResult<T> = Result<T, String>;

/// A reply-or-error result, as specifications see it.
pub open spec fn reply_result_view(r: FbResult<Reply>) -> Result<ReplyModel, Seq<char>> {
    match r {
        Ok(rep) => Ok(rep@),
        Err(m) => Err(m@),
    }
}

/// A result of text, as specifications see it.
pub open spec fn text_result_view(r: FbResult<String>) -> Result<Seq<char>, Seq<char>> {
    match r {
        Ok(v) => Ok(v@),
        Err(m) => Err(m@),
    }
}

/// A unit result, as specifications see it.
pub open spec fn unit_result_view(r: FbResult<()>) -> Result<(), Seq<char>> {
    match r {
        Ok(_) => Ok(()),
        Err(m) => Err(m@),
    }
}

/// The generic message for a reply that fits no expectation of the running
/// operation: a protocol violation, surfaced as a failure.
pub open spec fn unknown_failure_text() -> Seq<char> {
    "Unknown failure"@
}

/// How `getvar` reads a reply: `OKAY` carries the value, `FAIL` the reason.
pub open spec fn spec_getvar_outcome(reply: ReplyModel) -> Result<Seq<char>, Seq<char>> {
    match reply {
        ReplyModel::Okay(v) => Ok(v),
        ReplyModel::Fail(m) => Err(m),
        _ => Err(unknown_failure_text()),
    }
}

/// How the plain commands (`erase`, `continue`, `reboot`, and rebooting to
/// the bootloader) read a reply: only `OKAY` succeeds, `FAIL` carries the
/// reason.
pub open spec fn spec_plain_outcome(reply: ReplyModel) -> Result<(), Seq<char>> {
    match reply {
        ReplyModel::Okay(_) => Ok(()),
        ReplyModel::Fail(m) => Err(m),
        _ => Err(unknown_failure_text()),
    }
}

/// How `flash` and the download data phase read a reply: only `OKAY`
/// succeeds, and an `INFO` message becomes the failure reason, since the
/// protocol has not confirmed success.
pub open spec fn spec_verbose_outcome(reply: ReplyModel) -> Result<(), Seq<char>> {
    match reply {
        ReplyModel::Okay(_) => Ok(()),
        ReplyModel::Fail(m) => Err(m),
        ReplyModel::Info(m) => Err(m),
        ReplyModel::Data(_) => Err(unknown_failure_text()),
    }
}

/// How the first download stage reads a reply: the device must announce
/// readiness for exactly `expected` bytes; on anything else the payload is
/// not sent.
pub open spec fn spec_download_ack(reply: ReplyModel, expected: nat) -> Result<(), Seq<char>> {
    match reply {
        ReplyModel::Data(n) => if n == expected {
            Ok(())
        } else {
            Err(unknown_failure_text())
        },
        ReplyModel::Fail(m) => Err(m),
        _ => Err(unknown_failure_text()),
    }
}

/// Reads a `getvar` reply into the variable's value or an error.
pub fn interpret_getvar(reply: Reply) -> (r: FbResult<String>)
    ensures
        text_result_view(r) == spec_getvar_outcome(reply@),
{
    match reply {
        Reply::Okay(v) => Ok(v),
        Reply::Fail(m) => Err(m),
        _ => Err("Unknown failure".to_owned()),
    }
}

/// Reads a reply to one of the plain commands.
pub fn interpret_plain(reply: Reply) -> (r: FbResult<()>)
    ensures
        unit_result_view(r) == spec_plain_outcome(reply@),
{
    match reply {
        Reply::Okay(_) => Ok(()),
        Reply::Fail(m) => Err(m),
        _ => Err("Unknown failure".to_owned()),
    }
}

/// Reads a reply to `flash` or to the download data phase.
pub fn interpret_verbose(reply: Reply) -> (r: FbResult<()>)
    ensures
        unit_result_view(r) == spec_verbose_outcome(reply@),
{
    match reply {
        Reply::Okay(_) => Ok(()),
        Reply::Fail(m) => Err(m),
        Reply::Info(m) => Err(m),
        Reply::Data(_) => Err("Unknown failure".to_owned()),
    }
}

/// Reads the reply to a `download:` command; `Ok` exactly when the device
/// announced readiness for `expected` bytes.
pub fn interpret_download_ack(reply: Reply, expected: usize) -> (r: FbResult<()>)
    ensures
        unit_result_view(r) == spec_download_ack(reply@, expected as nat),
{
    match reply {
        Reply::Data(n) => if n == expected {
            Ok(())
        } else {
            Err("Unknown failure".to_owned())
        },
        Reply::Fail(m) => Err(m),
        _ => Err("Unknown failure".to_owned()),
    }
}

/// Appends `src` to `dst`.
fn append_bytes(dst: &mut Vec<u8>, src: &[u8])
    ensures
        final(dst)@ == old(dst)@ + src@,
{
    let n = src.len();
    let mut i: usize = 0;
    proof {
        assert(old(dst)@ + src@.take(0) =~= old(dst)@);
    }
    while i < n
        invariant
            n == src@.len(),
            i <= n,
            dst@ == old(dst)@ + src@.take(i as int),
        decreases n - i,
    {
        dst.push(src[i]);
        proof {
            assert((old(dst)@ + src@.take(i as int)).push(src@[i as int]) =~= old(dst)@
                + src@.take(i as int + 1));
        }
        i = i + 1;
    }
    proof {
        assert(old(dst)@ + src@.take(n as int) =~= old(dst)@ + src@);
    }
}

/// The command keyword followed by its argument: the wire form of a command,
/// with no length prefix and no terminator.
pub fn build_command(keyword: &str, arg: &[u8]) -> (cmd: Vec<u8>)
    ensures
        cmd@ == keyword.spec_bytes() + arg@,
{
    let mut cmd: Vec<u8> = Vec::new();
    append_bytes(&mut cmd, keyword.as_bytes());
    append_bytes(&mut cmd, arg);
    proof {
        assert(Seq::<u8>::empty() + keyword.spec_bytes() + arg@ =~= keyword.spec_bytes() + arg@);
    }
    cmd
}

/// The fastboot host-side operations, provided on top of any [`Transport`].
///
/// An implementing type writes `impl Fastboot for T {}` and gains the
/// operations; keeping the coupling an explicit opt-in rather than a blanket
/// impl leaves room for transports that are no fastboot devices.
pub trait Fastboot: Transport {
    /// Gets a fastboot variable.
    ///
    /// One exchange of `getvar:<name>`; the reply is read as
    /// [`spec_getvar_outcome`] says: the value the device answered with
    /// `OKAY`, or its `FAIL` reason.
    fn getvar(&mut self, var: &str) -> (r: FbResult<String>)
        ensures
            ({
                let cmd = "getvar:".spec_bytes() + var.spec_bytes();
                let run = spec_exchange(old(self).future_writes(), old(self).future_reads(), cmd);
                exchange_applies(run) ==> {
                    &&& text_result_view(r) == (match run.result {
                        Ok(rep) => spec_getvar_outcome(rep),
                        Err(m) => Err(m),
                    })
                    &&& final(self).future_writes() == old(self).future_writes().skip(
                        run.writes_consumed as int,
                    )
                    &&& final(self).future_reads() == old(self).future_reads().skip(
                        run.reads_consumed as int,
                    )
                    &&& final(self).sent() == old(self).sent() + run.sent
                    &&& (run.result is Ok ==> final(self).sent() == old(self).sent() + cmd)
                }
            }),
    {
        let cmd = build_command("getvar:", var.as_bytes());
        let res = fb_send(self, cmd.as_slice());
        proof {
            lemma_sent_on_reply(old(self).future_writes(), old(self).future_reads(), cmd@);
        }
        match res {
            Ok(reply) => interpret_getvar(reply),
            Err(m) => Err(m),
        }
    }

    /// Downloads provided data into a client.
    ///
    /// Two-phase handshake: the host announces the payload length as
    /// `download:` plus eight hex digits (which is what bounds it), the
    /// device answers `DATA` with the size it will accept, and only when
    /// that size is exactly the payload length is the payload itself sent —
    /// never on a mismatch, as the first clause's sent stream shows. The
    /// acknowledgement is read as [`spec_download_ack`] says, the data-phase
    /// reply as [`spec_verbose_outcome`] says.
    fn download(&mut self, data: &[u8]) -> (r: FbResult<()>)
        requires
            data@.len() <= u32::MAX,
        ensures
            ({
                let cmd = "download:".spec_bytes() + hex8(data@.len() as u32);
                let run1 = spec_exchange(old(self).future_writes(), old(self).future_reads(), cmd);
                let ack = (match run1.result {
                    Ok(rep) => spec_download_ack(rep, data@.len() as nat),
                    Err(m) => Err(m),
                });
                let w1 = old(self).future_writes().skip(run1.writes_consumed as int);
                let r1 = old(self).future_reads().skip(run1.reads_consumed as int);
                let run2 = spec_exchange(w1, r1, data@);
                &&& (exchange_applies(run1) && ack is Err ==> {
                    &&& unit_result_view(r) == ack
                    &&& final(self).future_writes() == w1
                    &&& final(self).future_reads() == r1
                    &&& final(self).sent() == old(self).sent() + run1.sent
                    &&& (run1.result is Ok ==> final(self).sent() == old(self).sent() + cmd)
                })
                &&& (exchange_applies(run1) && ack is Ok && exchange_applies(run2) ==> {
                    &&& unit_result_view(r) == (match run2.result {
                        Ok(rep) => spec_verbose_outcome(rep),
                        Err(m) => Err(m),
                    })
                    &&& final(self).future_writes() == w1.skip(run2.writes_consumed as int)
                    &&& final(self).future_reads() == r1.skip(run2.reads_consumed as int)
                    &&& final(self).sent() == old(self).sent() + run1.sent + run2.sent
                    &&& (run2.result is Ok ==> final(self).sent() == old(self).sent() + cmd
                        + data@)
                })
            }),
    {
        let len_arg = encode_hex8(data.len() as u32);
        let cmd = build_command("download:", len_arg.as_slice());
        let res1 = fb_send(self, cmd.as_slice());
        proof {
            lemma_sent_on_reply(old(self).future_writes(), old(self).future_reads(), cmd@);
        }
        let reply = match res1 {
            Ok(reply) => reply,
            Err(m) => {
                return Err(m);
            },
        };
        match interpret_download_ack(reply, data.len()) {
            Ok(_) => {},
            Err(m) => {
                return Err(m);
            },
        }
        let ghost w1 = self.future_writes();
        let ghost r1 = self.future_reads();
        let res2 = fb_send(self, data);
        proof {
            lemma_sent_on_reply(w1, r1, data@);
        }
        match res2 {
            Ok(reply2) => interpret_verbose(reply2),
            Err(m) => Err(m),
        }
    }

    /// Flashes already-downloaded data into the named partition.
    ///
    /// One exchange of `flash:<partition>`; the reply is read as
    /// [`spec_verbose_outcome`] says, an `INFO` message becoming the failure
    /// reason.
    fn flash(&mut self, partition: &str) -> (r: FbResult<()>)
        ensures
            ({
                let cmd = "flash:".spec_bytes() + partition.spec_bytes();
                let run = spec_exchange(old(self).future_writes(), old(self).future_reads(), cmd);
                exchange_applies(run) ==> {
                    &&& unit_result_view(r) == (match run.result {
                        Ok(rep) => spec_verbose_outcome(rep),
                        Err(m) => Err(m),
                    })
                    &&& final(self).future_writes() == old(self).future_writes().skip(
                        run.writes_consumed as int,
                    )
                    &&& final(self).future_reads() == old(self).future_reads().skip(
                        run.reads_consumed as int,
                    )
                    &&& final(self).sent() == old(self).sent() + run.sent
                    &&& (run.result is Ok ==> final(self).sent() == old(self).sent() + cmd)
                }
            }),
    {
        let cmd = build_command("flash:", partition.as_bytes());
        let res = fb_send(self, cmd.as_slice());
        proof {
            lemma_sent_on_reply(old(self).future_writes(), old(self).future_reads(), cmd@);
        }
        match res {
            Ok(reply) => interpret_verbose(reply),
            Err(m) => Err(m),
        }
    }

    /// Erases the named partition.
    ///
    /// One exchange of `erase:<partition>`; the reply is read as
    /// [`spec_plain_outcome`] says.
    fn erase(&mut self, partition: &str) -> (r: FbResult<()>)
        ensures
            ({
                let cmd = "erase:".spec_bytes() + partition.spec_bytes();
                let run = spec_exchange(old(self).future_writes(), old(self).future_reads(), cmd);
                exchange_applies(run) ==> {
                    &&& unit_result_view(r) == (match run.result {
                        Ok(rep) => spec_plain_outcome(rep),
                        Err(m) => Err(m),
                    })
                    &&& final(self).future_writes() == old(self).future_writes().skip(
                        run.writes_consumed as int,
                    )
                    &&& final(self).future_reads() == old(self).future_reads().skip(
                        run.reads_consumed as int,
                    )
                    &&& final(self).sent() == old(self).sent() + run.sent
                    &&& (run.result is Ok ==> final(self).sent() == old(self).sent() + cmd)
                }
            }),
    {
        let cmd = build_command("erase:", partition.as_bytes());
        let res = fb_send(self, cmd.as_slice());
        proof {
            lemma_sent_on_reply(old(self).future_writes(), old(self).future_reads(), cmd@);
        }
        match res {
            Ok(reply) => interpret_plain(reply),
            Err(m) => Err(m),
        }
    }

    /// Continues booting as normal, where the device can.
    ///
    /// One exchange of the bare keyword `continue`; the reply is read as
    /// [`spec_plain_outcome`] says.
    fn continue_boot(&mut self) -> (r: FbResult<()>)
        ensures
            ({
                let cmd = "continue".spec_bytes();
                let run = spec_exchange(old(self).future_writes(), old(self).future_reads(), cmd);
                exchange_applies(run) ==> {
                    &&& unit_result_view(r) == (match run.result {
                        Ok(rep) => spec_plain_outcome(rep),
                        Err(m) => Err(m),
                    })
                    &&& final(self).future_writes() == old(self).future_writes().skip(
                        run.writes_consumed as int,
                    )
                    &&& final(self).future_reads() == old(self).future_reads().skip(
                        run.reads_consumed as int,
                    )
                    &&& final(self).sent() == old(self).sent() + run.sent
                    &&& (run.result is Ok ==> final(self).sent() == old(self).sent() + cmd)
                }
            }),
    {
        let res = fb_send(self, "continue".as_bytes());
        proof {
            lemma_sent_on_reply(
                old(self).future_writes(),
                old(self).future_reads(),
                "continue".spec_bytes(),
            );
        }
        match res {
            Ok(reply) => interpret_plain(reply),
            Err(m) => Err(m),
        }
    }

    /// Reboots the device.
    ///
    /// One exchange of the bare keyword `reboot`; the reply is read as
    /// [`spec_plain_outcome`] says.
    fn reboot(&mut self) -> (r: FbResult<()>)
        ensures
            ({
                let cmd = "reboot".spec_bytes();
                let run = spec_exchange(old(self).future_writes(), old(self).future_reads(), cmd);
                exchange_applies(run) ==> {
                    &&& unit_result_view(r) == (match run.result {
                        Ok(rep) => spec_plain_outcome(rep),
                        Err(m) => Err(m),
                    })
                    &&& final(self).future_writes() == old(self).future_writes().skip(
                        run.writes_consumed as int,
                    )
                    &&& final(self).future_reads() == old(self).future_reads().skip(
                        run.reads_consumed as int,
                    )
                    &&& final(self).sent() == old(self).sent() + run.sent
                    &&& (run.result is Ok ==> final(self).sent() == old(self).sent() + cmd)
                }
            }),
    {
        let res = fb_send(self, "reboot".as_bytes());
        proof {
            lemma_sent_on_reply(
                old(self).future_writes(),
                old(self).future_reads(),
                "reboot".spec_bytes(),
            );
        }
        match res {
            Ok(reply) => interpret_plain(reply),
            Err(m) => Err(m),
        }
    }

    /// Reboots the device into its bootloader.
    ///
    /// One exchange of the bare keyword `reboot-bootloader`; the reply is
    /// read as [`spec_plain_outcome`] says.
    fn reboot_bootloader(&mut self) -> (r: FbResult<()>)
        ensures
            ({
                let cmd = "reboot-bootloader".spec_bytes();
                let run = spec_exchange(old(self).future_writes(), old(self).future_reads(), cmd);
                exchange_applies(run) ==> {
                    &&& unit_result_view(r) == (match run.result {
                        Ok(rep) => spec_plain_outcome(rep),
                        Err(m) => Err(m),
                    })
                    &&& final(self).future_writes() == old(self).future_writes().skip(
                        run.writes_consumed as int,
                    )
                    &&& final(self).future_reads() == old(self).future_reads().skip(
                        run.reads_consumed as int,
                    )
                    &&& final(self).sent() == old(self).sent() + run.sent
                    &&& (run.result is Ok ==> final(self).sent() == old(self).sent() + cmd)
                }
            }),
    {
        let res = fb_send(self, "reboot-bootloader".as_bytes());
        proof {
            lemma_sent_on_reply(
                old(self).future_writes(),
                old(self).future_reads(),
                "reboot-bootloader".spec_bytes(),
            );
        }
        match res {
            Ok(reply) => interpret_plain(reply),
            Err(m) => Err(m),
        }
    }
}

/// Writes all of `data`, in as many transfers as the device takes. A short
/// write continues where it left off; a write that moves nothing, a timeout
/// and a transport error are all fatal here. The result, the bytes that
/// reached the channel and the model state afterwards are exactly what
/// [`spec_write_all`] makes of the channel's write script.
fn write_all<T: Transport>(io: &mut T, data: &[u8]) -> (r: Result<(), String>)
    ensures
        ({
            let run = spec_write_all(old(io).future_writes(), data@);
            run.complete ==> {
                &&& unit_result_view(r) == run.outcome
                &&& final(io).future_writes() == old(io).future_writes().skip(run.consumed as int)
                &&& final(io).future_reads() == old(io).future_reads()
                &&& final(io).sent() == old(io).sent() + run.sent
            }
        }),
{
    let n = data.len();
    let mut done: usize = 0;
    let ghost w0 = io.future_writes();
    let ghost r0 = io.future_reads();
    let ghost s0 = io.sent();
    let ghost run = spec_write_all(w0, data@);
    let ghost mut consumed: nat = 0;
    proof {
        assert(data@.skip(0) =~= data@);
        assert(data@.take(0) =~= Seq::<u8>::empty());
        assert(w0.skip(0) =~= w0);
        assert(s0 + data@.take(0) =~= s0);
        assert(data@.take(0) + spec_write_all(w0, data@).sent =~= spec_write_all(w0, data@).sent);
    }
    while done < n
        invariant
            n == data@.len(),
            done <= n,
            w0 == old(io).future_writes(),
            r0 == old(io).future_reads(),
            s0 == old(io).sent(),
            run == spec_write_all(w0, data@),
            run.complete ==> ({
                let rest = spec_write_all(io.future_writes(), data@.skip(done as int));
                &&& io.future_reads() == r0
                &&& consumed <= w0.len()
                &&& io.future_writes() == w0.skip(consumed as int)
                &&& io.sent() == s0 + data@.take(done as int)
                &&& rest.complete
                &&& run.outcome == rest.outcome
                &&& run.consumed == consumed + rest.consumed
                &&& run.sent == data@.take(done as int) + rest.sent
            }),
        decreases n - done,
    {
        let ghost rest = spec_write_all(io.future_writes(), data@.skip(done as int));
        let chunk = slice_subrange(data, done, n);
        proof {
            assert(chunk@ =~= data@.skip(done as int));
            if run.complete {
                // the script still holds an event: the remainder is not empty
                // and the remaining run is complete
                assert(io.future_writes().len() > 0);
                assert(consumed < w0.len());
            }
        }
        let ghost w_before = io.future_writes();
        let ghost s_before = io.sent();
        match io.write(chunk) {
            Ok(accepted) => {
                if accepted == 0 {
                    proof {
                        if run.complete {
                            assert(w_before[0] matches WriteEvent::Accepted(c)
                                && crate::transport::accepted_count(c, chunk@.len()) == 0);
                            assert(rest.outcome == Err::<(), Seq<char>>(
                                "failed to write whole buffer"@,
                            ));
                            assert(rest.consumed == 1);
                            assert(w0.skip(consumed as int).drop_first() =~= w0.skip(
                                consumed as int + 1,
                            ));
                            assert(io.sent() =~= s_before + chunk@.take(0));
                            assert(s_before + chunk@.take(0) =~= s_before);
                            assert(data@.take(done as int) + rest.sent =~= data@.take(done as int));
                        }
                    }
                    return Err("failed to write whole buffer".to_owned());
                }
                proof {
                    if run.complete {
                        assert(w_before[0] matches WriteEvent::Accepted(c)
                            && crate::transport::accepted_count(c, chunk@.len())
                            == accepted as nat);
                        assert(w0.skip(consumed as int).drop_first() =~= w0.skip(
                            consumed as int + 1,
                        ));
                        assert(chunk@.skip(accepted as int) =~= data@.skip(
                            done as int + accepted as int,
                        ));
                        assert(data@.take(done as int) + chunk@.take(accepted as int) =~= data@.take(
                            done as int + accepted as int,
                        ));
                        assert(s0 + data@.take(done as int) + chunk@.take(accepted as int) =~= s0
                            + data@.take(done as int + accepted as int));
                        assert(data@.take(done as int) + (chunk@.take(accepted as int)
                            + spec_write_all(
                            io.future_writes(),
                            data@.skip(done as int + accepted as int),
                        ).sent) =~= data@.take(done as int + accepted as int) + spec_write_all(
                            io.future_writes(),
                            data@.skip(done as int + accepted as int),
                        ).sent);
                    }
                    consumed = consumed + 1;
                }
                done = done + accepted;
            },
            Err(e) => {
                proof {
                    if run.complete {
                        match w_before[0] {
                            WriteEvent::Accepted(_) => {
                                assert(false);
                            },
                            WriteEvent::TimedOut => {
                                assert(e == IoError::TimedOut);
                                assert(rest.outcome == Err::<(), Seq<char>>("timed out"@));
                            },
                            WriteEvent::Fatal(m) => {
                                assert(e matches IoError::Fatal(mm) && mm@ == m);
                            },
                        }
                        assert(rest.consumed == 1);
                        assert(w0.skip(consumed as int).drop_first() =~= w0.skip(
                            consumed as int + 1,
                        ));
                        assert(data@.take(done as int) + rest.sent =~= data@.take(done as int));
                    }
                }
                return Err(e.into_message());
            },
        }
    }
    proof {
        if run.complete {
            assert(data@.skip(n as int) =~= Seq::<u8>::empty());
            assert(run.outcome == Ok::<(), Seq<char>>(()));
            assert(data@.take(n as int) =~= data@);
            assert(run.sent =~= data@);
        }
    }
    Ok(())
}

/// Sends one command or payload and blocks until the device answers.
///
/// The write must go through in full: any write failure, a timeout included,
/// is immediately fatal and no read is attempted. Reads are then retried
/// past single-transfer timeouts — the protocol is synchronous and a slow
/// device is expected — so the loop carries no overall deadline, only a
/// retry counter wide enough never to run out in practice. A received buffer
/// shorter than the four tag bytes breaks the framing invariant and is
/// surfaced as an error.
///
/// Wherever the transport's model decides the exchange, the result and the
/// channel state afterwards are exactly what [`spec_exchange`] makes of the
/// scripts and the payload.
pub fn fb_send<T: Transport>(io: &mut T, payload: &[u8]) -> (r: FbResult<Reply>)
    ensures
        ({
            let run = spec_exchange(old(io).future_writes(), old(io).future_reads(), payload@);
            exchange_applies(run) ==> {
                &&& reply_result_view(r) == run.result
                &&& final(io).future_writes() == old(io).future_writes().skip(
                    run.writes_consumed as int,
                )
                &&& final(io).future_reads() == old(io).future_reads().skip(
                    run.reads_consumed as int,
                )
                &&& final(io).sent() == old(io).sent() + run.sent
            }
        }),
{
    let ghost w0 = io.future_writes();
    let ghost r0 = io.future_reads();
    let ghost s0 = io.sent();
    let ghost wrun = spec_write_all(w0, payload@);
    let ghost rrun = spec_read_loop(r0);
    let ghost run = spec_exchange(w0, r0, payload@);
    match write_all(io, payload) {
        Ok(_) => {},
        Err(m) => {
            proof {
                if exchange_applies(run) {
                    assert(wrun.outcome == Err::<(), Seq<char>>(m@));
                    assert(r0.skip(0) =~= r0);
                }
            }
            return Err(m);
        },
    }
    proof {
        assert(r0.skip(0) =~= r0);
        if exchange_applies(run) {
            assert(wrun.outcome is Ok);
        }
    }
    let mut attempts: usize = 0;
    loop
        invariant
            w0 == old(io).future_writes(),
            r0 == old(io).future_reads(),
            s0 == old(io).sent(),
            wrun == spec_write_all(w0, payload@),
            rrun == spec_read_loop(r0),
            run == spec_exchange(w0, r0, payload@),
            exchange_applies(run) ==> ({
                let cur = spec_read_loop(r0.skip(attempts as int));
                &&& wrun.outcome is Ok
                &&& attempts <= r0.len()
                &&& io.future_writes() == w0.skip(wrun.consumed as int)
                &&& io.future_reads() == r0.skip(attempts as int)
                &&& io.sent() == s0 + wrun.sent
                &&& cur.complete
                &&& rrun.result == cur.result
                &&& rrun.consumed == attempts + cur.consumed
            }),
        decreases usize::MAX - attempts,
    {
        let ghost r_here = io.future_reads();
        let ghost cur = spec_read_loop(r0.skip(attempts as int));
        proof {
            if exchange_applies(run) {
                // a decision is still ahead, so the script is not exhausted
                assert(r0.skip(attempts as int).len() > 0);
                assert(attempts < r0.len());
            }
        }
        match io.read() {
            Ok(buf) => {
                proof {
                    if exchange_applies(run) {
                        match r_here[0] {
                            ReadEvent::Bytes(b) => {
                                assert(buf@ == b);
                            },
                            ReadEvent::TimedOut => {
                                assert(false);
                            },
                            ReadEvent::Fatal(_) => {
                                assert(false);
                            },
                        }
                        assert(cur.consumed == 1);
                        assert(r0.skip(attempts as int).drop_first() =~= r0.skip(
                            attempts as int + 1,
                        ));
                    }
                }
                if buf.len() < 4 {
                    return Err("reply too short".to_owned());
                }
                return Ok(decode(buf.as_slice()));
            },
            Err(IoError::TimedOut) => {
                proof {
                    if exchange_applies(run) {
                        match r_here[0] {
                            ReadEvent::Bytes(_) => {
                                assert(false);
                            },
                            ReadEvent::TimedOut => {},
                            ReadEvent::Fatal(_) => {
                                assert(false);
                            },
                        }
                        assert(cur.consumed >= 1);
                        // the decision sits within the retry bound, so the
                        // counter cannot run out first
                        assert(attempts < rrun.consumed && rrun.consumed <= usize::MAX);
                        assert(r0.skip(attempts as int).drop_first() =~= r0.skip(
                            attempts as int + 1,
                        ));
                    }
                }
                if attempts == usize::MAX {
                    return Err("timed out".to_owned());
                }
                attempts = attempts + 1;
            },
            Err(IoError::Fatal(m)) => {
                proof {
                    if exchange_applies(run) {
                        match r_here[0] {
                            ReadEvent::Bytes(_) => {
                                assert(false);
                            },
                            ReadEvent::TimedOut => {
                                assert(false);
                            },
                            ReadEvent::Fatal(mm) => {
                                assert(m@ == mm);
                            },
                        }
                        assert(cur.consumed == 1);
                        assert(r0.skip(attempts as int).drop_first() =~= r0.skip(
                            attempts as int + 1,
                        ));
                    }
                }
                return Err(m);
            },
        }
    }
}

} // verus!

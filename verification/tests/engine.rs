//! The protocol operations, driven against a scripted transport double.

use fastboot::fastboot::{
    fb_send, interpret_download_ack, interpret_getvar, interpret_plain, interpret_verbose,
    Fastboot, IoError, Transport,
};
use fastboot::reply::Reply;

/// A transport whose reads follow a script and whose writes are recorded.
struct ScriptedTransport {
    /// What each successive read returns.
    replies: Vec<Result<Vec<u8>, IoError>>,
    /// How many reads were issued.
    reads: usize,
    /// Every buffer handed to `write`, in order.
    writes: Vec<Vec<u8>>,
    /// When set, every write fails with this error instead.
    write_error: Option<IoError>,
    /// When set, a write accepts at most this many bytes.
    accept_at_most: Option<usize>,
}

impl ScriptedTransport {
    fn new(replies: Vec<Result<Vec<u8>, IoError>>) -> Self {
        ScriptedTransport {
            replies,
            reads: 0,
            writes: Vec::new(),
            write_error: None,
            accept_at_most: None,
        }
    }
}

impl Transport for ScriptedTransport {
    fn read(&mut self) -> Result<Vec<u8>, IoError> {
        let r = self.replies.remove(0);
        self.reads += 1;
        r
    }

    fn write(&mut self, buf: &[u8]) -> Result<usize, IoError> {
        if let Some(e) = &self.write_error {
            return Err(e.clone());
        }
        let n = match self.accept_at_most {
            Some(limit) => buf.len().min(limit),
            None => buf.len(),
        };
        self.writes.push(buf[..n].to_vec());
        Ok(n)
    }
}

impl Fastboot for ScriptedTransport {}

#[test]
fn getvar_returns_okay_value() {
    let mut t = ScriptedTransport::new(vec![Ok(b"OKAY1.0".to_vec())]);
    assert_eq!(t.getvar("version"), Ok("1.0".to_string()));
    assert_eq!(t.writes, vec![b"getvar:version".to_vec()]);
}

#[test]
fn getvar_surfaces_fail_reason() {
    let mut t = ScriptedTransport::new(vec![Ok(b"FAILunknown variable".to_vec())]);
    assert_eq!(t.getvar("version"), Err("unknown variable".to_string()));
}

#[test]
fn getvar_rejects_unexpected_reply() {
    let mut t = ScriptedTransport::new(vec![Ok(b"DATA00000004".to_vec())]);
    assert_eq!(t.getvar("version"), Err("Unknown failure".to_string()));
}

#[test]
fn download_handshake_succeeds_on_matching_size() {
    let mut t =
        ScriptedTransport::new(vec![Ok(b"DATA00000008".to_vec()), Ok(b"OKAY".to_vec())]);
    assert_eq!(t.download(b"abcdefgh"), Ok(()));
    assert_eq!(t.writes.len(), 2);
    assert_eq!(t.writes[0], b"download:00000008".to_vec());
    assert_eq!(t.writes[1], b"abcdefgh".to_vec());
}

#[test]
fn download_size_mismatch_sends_no_payload() {
    let mut t = ScriptedTransport::new(vec![Ok(b"DATA00000009".to_vec())]);
    assert_eq!(t.download(b"abcdefgh"), Err("Unknown failure".to_string()));
    // The announced size differs from the payload length, so only the
    // command itself may ever reach the device.
    assert_eq!(t.writes.len(), 1);
    assert_eq!(t.writes[0], b"download:00000008".to_vec());
}

#[test]
fn download_first_stage_fail_is_surfaced() {
    let mut t = ScriptedTransport::new(vec![Ok(b"FAILno room".to_vec())]);
    assert_eq!(t.download(b"abcdefgh"), Err("no room".to_string()));
    assert_eq!(t.writes.len(), 1);
}

#[test]
fn download_data_phase_info_is_a_failure() {
    let mut t =
        ScriptedTransport::new(vec![Ok(b"DATA00000004".to_vec()), Ok(b"INFOstill busy".to_vec())]);
    assert_eq!(t.download(b"abcd"), Err("still busy".to_string()));
    assert_eq!(t.writes.len(), 2);
}

#[test]
fn exchange_retries_past_read_timeouts() {
    let mut t = ScriptedTransport::new(vec![
        Err(IoError::TimedOut),
        Err(IoError::TimedOut),
        Ok(b"OKAY".to_vec()),
    ]);
    assert_eq!(t.reboot(), Ok(()));
    assert_eq!(t.reads, 3);
    assert_eq!(t.writes, vec![b"reboot".to_vec()]);
}

#[test]
fn write_timeout_fails_immediately() {
    let mut t = ScriptedTransport::new(vec![Ok(b"OKAY".to_vec())]);
    t.write_error = Some(IoError::TimedOut);
    assert_eq!(t.getvar("version"), Err("timed out".to_string()));
    // The operation aborts before any read is attempted.
    assert_eq!(t.reads, 0);
}

#[test]
fn fatal_read_error_aborts_the_exchange() {
    let mut t = ScriptedTransport::new(vec![Err(IoError::Fatal("pipe error".to_string()))]);
    assert_eq!(t.reboot(), Err("pipe error".to_string()));
}

#[test]
fn short_reply_is_an_error() {
    let mut t = ScriptedTransport::new(vec![Ok(b"OK".to_vec())]);
    assert_eq!(t.reboot(), Err("reply too short".to_string()));
}

#[test]
fn short_writes_are_continued() {
    let mut t = ScriptedTransport::new(vec![Ok(b"OKAY1.0".to_vec())]);
    t.accept_at_most = Some(3);
    assert_eq!(t.getvar("version"), Ok("1.0".to_string()));
    let sent: Vec<u8> = t.writes.concat();
    assert_eq!(sent, b"getvar:version".to_vec());
}

#[test]
fn flash_sends_partition_and_reads_info_as_failure() {
    let mut t = ScriptedTransport::new(vec![Ok(b"INFOwriting".to_vec())]);
    assert_eq!(t.flash("boot"), Err("writing".to_string()));
    assert_eq!(t.writes, vec![b"flash:boot".to_vec()]);
}

#[test]
fn flash_succeeds_on_okay() {
    let mut t = ScriptedTransport::new(vec![Ok(b"OKAY".to_vec())]);
    assert_eq!(t.flash("boot"), Ok(()));
}

#[test]
fn erase_sends_partition() {
    let mut t = ScriptedTransport::new(vec![Ok(b"OKAY".to_vec())]);
    assert_eq!(t.erase("userdata"), Ok(()));
    assert_eq!(t.writes, vec![b"erase:userdata".to_vec()]);
}

#[test]
fn erase_treats_info_as_unknown() {
    let mut t = ScriptedTransport::new(vec![Ok(b"INFOworking".to_vec())]);
    assert_eq!(t.erase("userdata"), Err("Unknown failure".to_string()));
}

#[test]
fn continue_boot_sends_bare_keyword() {
    let mut t = ScriptedTransport::new(vec![Ok(b"OKAY".to_vec())]);
    assert_eq!(t.continue_boot(), Ok(()));
    assert_eq!(t.writes, vec![b"continue".to_vec()]);
}

#[test]
fn reboot_bootloader_sends_bare_keyword() {
    let mut t = ScriptedTransport::new(vec![Ok(b"OKAY".to_vec())]);
    assert_eq!(t.reboot_bootloader(), Ok(()));
    assert_eq!(t.writes, vec![b"reboot-bootloader".to_vec()]);
}

#[test]
fn fb_send_returns_the_decoded_reply() {
    let mut t = ScriptedTransport::new(vec![Ok(b"OKAYdone".to_vec())]);
    match fb_send(&mut t, b"reboot") {
        Ok(Reply::Okay(m)) => assert_eq!(m, "done"),
        _ => panic!("expected Okay"),
    }
}

#[test]
fn interpreters_map_each_reply() {
    assert_eq!(interpret_getvar(Reply::Okay("v".to_string())), Ok("v".to_string()));
    assert_eq!(interpret_getvar(Reply::Info("i".to_string())), Err("Unknown failure".to_string()));
    assert_eq!(interpret_plain(Reply::Okay(String::new())), Ok(()));
    assert_eq!(interpret_plain(Reply::Data(4)), Err("Unknown failure".to_string()));
    assert_eq!(interpret_verbose(Reply::Info("m".to_string())), Err("m".to_string()));
    assert_eq!(interpret_verbose(Reply::Data(4)), Err("Unknown failure".to_string()));
    assert_eq!(interpret_download_ack(Reply::Data(5), 5), Ok(()));
    assert_eq!(
        interpret_download_ack(Reply::Data(6), 5),
        Err("Unknown failure".to_string())
    );
    assert_eq!(interpret_download_ack(Reply::Fail("f".to_string()), 5), Err("f".to_string()));
}

#[test]
fn io_error_messages() {
    assert_eq!(IoError::TimedOut.into_message(), "timed out");
    assert_eq!(IoError::Fatal("broken pipe".to_string()).into_message(), "broken pipe");
}

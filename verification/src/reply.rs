//! Reply framing: a raw reply buffer starts with one of the four ASCII tags
//! `OKAY`, `INFO`, `FAIL`, `DATA`; the rest is the payload. `DATA` carries a
//! hex size, the other tags carry text.

use vstd::prelude::*;
use vstd::slice::slice_subrange;
use vstd::utf8::{decode_utf8, valid_utf8};
use crate::hex::{hex_value, parse_hex};

verus! {

/// A structured device reply: the four-byte tag made a variant, the payload
/// its argument.
#[derive(Debug, Clone)]
pub enum Reply {
    /// The command succeeded; the payload may carry a value.
    Okay(String),
    /// The device is ready to receive this many bytes (download handshake).
    Data(usize),
    /// The command was rejected, with a human-readable reason.
    Fail(String),
    /// An informational progress message.
    Info(String),
}

/// What a [`Reply`] is in specifications: its payload as abstract text or as
/// a mathematical size.
pub enum ReplyModel {
    Okay(Seq<char>),
    Data(nat),
    Fail(Seq<char>),
    Info(Seq<char>),
}

impl View for Reply {
    type V = ReplyModel;

    open spec fn view(&self) -> ReplyModel {
        match self {
            Reply::Okay(m) => ReplyModel::Okay(m@),
            Reply::Data(n) => ReplyModel::Data(*n as nat),
            Reply::Fail(m) => ReplyModel::Fail(m@),
            Reply::Info(m) => ReplyModel::Info(m@),
        }
    }
}

/// The tag bytes of `OKAY`.
pub open spec fn okay_tag() -> Seq<u8> {
    seq![0x4fu8, 0x4bu8, 0x41u8, 0x59u8]
}

/// The tag bytes of `INFO`.
pub open spec fn info_tag() -> Seq<u8> {
    seq![0x49u8, 0x4eu8, 0x46u8, 0x4fu8]
}

/// The tag bytes of `FAIL`.
pub open spec fn fail_tag() -> Seq<u8> {
    seq![0x46u8, 0x41u8, 0x49u8, 0x4cu8]
}

/// The tag bytes of `DATA`.
pub open spec fn data_tag() -> Seq<u8> {
    seq![0x44u8, 0x41u8, 0x54u8, 0x41u8]
}

/// The text that lossy UTF-8 decoding makes of `bytes`; pinned down only on
/// valid UTF-8, where it is the plain decoding.
pub uninterp spec fn utf8_lossy(bytes: Seq<u8>) -> Seq<char>;

/// Relies on `String::from_utf8_lossy`: the result depends on the bytes
/// alone, and std documents the conversion as exact on valid UTF-8 (invalid
/// sequences become replacement characters).
#[verifier::external_body]
fn bytes_to_text(bytes: &[u8]) -> (s: String)
    ensures
        s@ == utf8_lossy(bytes@),
        valid_utf8(bytes@) ==> s@ == decode_utf8(bytes@),
{
    String::from_utf8_lossy(bytes).into_owned()
}

/// `s` without the NUL padding that an oversized read buffer leaves at its
/// end.
pub open spec fn strip_trailing_nuls(s: Seq<u8>) -> Seq<u8>
    decreases s.len(),
{
    if s.len() > 0 && s.last() == 0 {
        strip_trailing_nuls(s.drop_last())
    } else {
        s
    }
}

/// The message a `DATA` reply decodes to when its size cannot be read.
pub open spec fn data_failure_text() -> Seq<char> {
    "DATA: failed to decode size"@
}

/// The size of a `DATA` payload reads as a hex numeral the host can hold.
pub open spec fn data_size_parses(payload: Seq<u8>) -> bool {
    match hex_value(strip_trailing_nuls(payload)) {
        Some(v) => v <= usize::MAX,
        None => false,
    }
}

/// What decoding a raw reply buffer of at least four bytes yields.
pub open spec fn spec_decode(raw: Seq<u8>) -> ReplyModel
    recommends
        raw.len() >= 4,
{
    let tag = raw.subrange(0, 4);
    let payload = raw.skip(4);
    if tag == okay_tag() {
        ReplyModel::Okay(utf8_lossy(payload))
    } else if tag == info_tag() {
        ReplyModel::Info(utf8_lossy(payload))
    } else if tag == fail_tag() {
        ReplyModel::Fail(utf8_lossy(payload))
    } else if tag == data_tag() {
        match hex_value(strip_trailing_nuls(payload)) {
            Some(v) => if v <= usize::MAX {
                ReplyModel::Data(v)
            } else {
                ReplyModel::Fail(data_failure_text())
            },
            None => ReplyModel::Fail(data_failure_text()),
        }
    } else {
        // An unrecognized tag is a protocol violation, reported as a failure.
        ReplyModel::Fail(utf8_lossy(payload))
    }
}

/// A reply tag equals one of the four literals exactly when its bytes do.
proof fn lemma_tag_bytes_determine(raw: Seq<u8>)
    requires
        raw.len() >= 4,
    ensures
        (raw.subrange(0, 4) == okay_tag()) <==> (raw[0] == 0x4f && raw[1] == 0x4b && raw[2]
            == 0x41 && raw[3] == 0x59),
        (raw.subrange(0, 4) == info_tag()) <==> (raw[0] == 0x49 && raw[1] == 0x4e && raw[2]
            == 0x46 && raw[3] == 0x4f),
        (raw.subrange(0, 4) == fail_tag()) <==> (raw[0] == 0x46 && raw[1] == 0x41 && raw[2]
            == 0x49 && raw[3] == 0x4c),
        (raw.subrange(0, 4) == data_tag()) <==> (raw[0] == 0x44 && raw[1] == 0x41 && raw[2]
            == 0x54 && raw[3] == 0x41),
{
    let t = raw.subrange(0, 4);
    assert(t[0] == raw[0] && t[1] == raw[1] && t[2] == raw[2] && t[3] == raw[3]);
    if raw[0] == 0x4f && raw[1] == 0x4b && raw[2] == 0x41 && raw[3] == 0x59 {
        assert(t =~= okay_tag());
    }
    if raw[0] == 0x49 && raw[1] == 0x4e && raw[2] == 0x46 && raw[3] == 0x4f {
        assert(t =~= info_tag());
    }
    if raw[0] == 0x46 && raw[1] == 0x41 && raw[2] == 0x49 && raw[3] == 0x4c {
        assert(t =~= fail_tag());
    }
    if raw[0] == 0x44 && raw[1] == 0x41 && raw[2] == 0x54 && raw[3] == 0x41 {
        assert(t =~= data_tag());
    }
}

/// The payload without its trailing NUL padding.
fn strip_nuls<'a>(payload: &'a [u8]) -> (r: &'a [u8])
    ensures
        r@ == strip_trailing_nuls(payload@),
{
    let mut end: usize = payload.len();
    proof {
        assert(payload@.take(end as int) =~= payload@);
    }
    while end > 0 && payload[end - 1] == 0
        invariant
            end <= payload@.len(),
            strip_trailing_nuls(payload@) == strip_trailing_nuls(payload@.take(end as int)),
        decreases end,
    {
        proof {
            assert(payload@.take(end as int).last() == payload@[end as int - 1]);
            assert(payload@.take(end as int).drop_last() =~= payload@.take(end as int - 1));
        }
        end = end - 1;
    }
    proof {
        if end > 0 {
            assert(payload@.take(end as int).last() == payload@[end as int - 1]);
        }
    }
    slice_subrange(payload, 0, end)
}

/// Splits a raw reply into its tag and payload and interprets both.
///
/// Decoding never fails once the buffer holds the four tag bytes: an
/// unreadable `DATA` size and an unrecognized tag both become [`Reply::Fail`].
pub fn decode(raw: &[u8]) -> (r: Reply)
    requires
        raw@.len() >= 4,
    ensures
        r@ == spec_decode(raw@),
{
    proof {
        lemma_tag_bytes_determine(raw@);
    }
    let n = raw.len();
    let payload = slice_subrange(raw, 4, n);
    if raw[0] == 0x4f && raw[1] == 0x4b && raw[2] == 0x41 && raw[3] == 0x59 {
        Reply::Okay(bytes_to_text(payload))
    } else if raw[0] == 0x49 && raw[1] == 0x4e && raw[2] == 0x46 && raw[3] == 0x4f {
        Reply::Info(bytes_to_text(payload))
    } else if raw[0] == 0x46 && raw[1] == 0x41 && raw[2] == 0x49 && raw[3] == 0x4c {
        Reply::Fail(bytes_to_text(payload))
    } else if raw[0] == 0x44 && raw[1] == 0x41 && raw[2] == 0x54 && raw[3] == 0x41 {
        match parse_hex(strip_nuls(payload)) {
            Some(size) => Reply::Data(size),
            None => Reply::Fail("DATA: failed to decode size".to_owned()),
        }
    } else {
        Reply::Fail(bytes_to_text(payload))
    }
}

/// The four tag bytes that a reply of this kind carries on the wire.
pub open spec fn spec_tag_bytes(r: ReplyModel) -> Seq<u8> {
    match r {
        ReplyModel::Okay(_) => okay_tag(),
        ReplyModel::Data(_) => data_tag(),
        ReplyModel::Fail(_) => fail_tag(),
        ReplyModel::Info(_) => info_tag(),
    }
}

/// Builds the vector `[a, b, c, d]`.
fn four_bytes(a: u8, b: u8, c: u8, d: u8) -> (t: Vec<u8>)
    ensures
        t@ == seq![a, b, c, d],
{
    let mut t: Vec<u8> = Vec::new();
    t.push(a);
    t.push(b);
    t.push(c);
    t.push(d);
    proof {
        assert(t@ =~= seq![a, b, c, d]);
    }
    t
}

impl Reply {
    /// The four tag bytes that this reply carries on the wire.
    pub fn tag_bytes(&self) -> (t: Vec<u8>)
        ensures
            t@ == spec_tag_bytes(self@),
    {
        match self {
            Reply::Okay(_) => four_bytes(0x4f, 0x4b, 0x41, 0x59),
            Reply::Data(_) => four_bytes(0x44, 0x41, 0x54, 0x41),
            Reply::Fail(_) => four_bytes(0x46, 0x41, 0x49, 0x4c),
            Reply::Info(_) => four_bytes(0x49, 0x4e, 0x46, 0x4f),
        }
    }
}

/// The tag of `raw` is one of the four the protocol knows.
pub open spec fn recognized_tag(tag: Seq<u8>) -> bool {
    tag == okay_tag() || tag == info_tag() || tag == fail_tag() || tag == data_tag()
}

/// A raw buffer is a valid reply: long enough for a tag, a recognized tag,
/// and, for `DATA`, a size the host can represent.
pub open spec fn valid_reply_bytes(raw: Seq<u8>) -> bool {
    &&& raw.len() >= 4
    &&& recognized_tag(raw.subrange(0, 4))
    &&& (raw.subrange(0, 4) == data_tag() ==> data_size_parses(raw.skip(4)))
}

/// Tag round trip: decoding a valid raw reply and re-encoding the tag of the
/// result recovers the original four tag bytes.
pub proof fn lemma_tag_round_trip(raw: Seq<u8>)
    requires
        valid_reply_bytes(raw),
    ensures
        spec_tag_bytes(spec_decode(raw)) == raw.subrange(0, 4),
{
    lemma_tag_bytes_determine(raw);
}

/// A `DATA` reply whose size does not read as a representable hex numeral
/// decodes to a failure, never to a decoding error.
pub proof fn lemma_data_bad_size_fails(raw: Seq<u8>)
    requires
        raw.len() >= 4,
        raw.subrange(0, 4) == data_tag(),
        !data_size_parses(raw.skip(4)),
    ensures
        spec_decode(raw) == ReplyModel::Fail(data_failure_text()),
{
    lemma_tag_bytes_determine(raw);
}

} // verus!

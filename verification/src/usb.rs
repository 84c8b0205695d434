//! USB transport configuration: the packet size a link speed allows and the
//! bulk endpoints an interface must offer. Both are settled once, when a
//! device handle is constructed; a shortfall is a construction-time error,
//! never a runtime one, so no partially usable handle exists.

use vstd::prelude::*;

verus! {

/// The negotiated signalling rate of a USB link.
#[derive(Clone, Copy, Debug, PartialEq, Eq, Structural)]
pub enum LinkSpeed {
    Low,
    Full,
    High,
    Super,
    SuperPlus,
}

/// Why a device handle could not be configured.
#[derive(Clone, Copy, Debug, PartialEq, Eq, Structural)]
pub enum ConfigError {
    /// The link reported no speed, or one the protocol knows no packet size
    /// for.
    UnknownSpeed,
    /// The interface offers no bulk-IN endpoint.
    MissingBulkIn,
    /// The interface offers no bulk-OUT endpoint.
    MissingBulkOut,
}

/// The transfer direction of an endpoint: IN comes from the device, OUT goes
/// to it.
#[derive(Clone, Copy, Debug, PartialEq, Eq, Structural)]
pub enum EndpointDirection {
    In,
    Out,
}

/// The transfer type of an endpoint.
#[derive(Clone, Copy, Debug, PartialEq, Eq, Structural)]
pub enum TransferKind {
    Control,
    Isochronous,
    Bulk,
    Interrupt,
}

/// One endpoint of an interface, as its descriptor reports it.
#[derive(Clone, Copy, Debug, PartialEq, Eq, Structural)]
pub struct EndpointDesc {
    pub address: u8,
    pub direction: EndpointDirection,
    pub kind: TransferKind,
}

/// Packet size by speed: 64 bytes at low or full speed, 512 at high speed,
/// 1024 at super speed and beyond; an unreported or unknown speed has none.
pub open spec fn spec_packet_size(speed: Option<LinkSpeed>) -> Result<usize, ConfigError> {
    match speed {
        Some(LinkSpeed::Low) => Ok(64usize),
        Some(LinkSpeed::Full) => Ok(64usize),
        Some(LinkSpeed::High) => Ok(512usize),
        Some(LinkSpeed::Super) => Ok(1024usize),
        Some(LinkSpeed::SuperPlus) => Ok(1024usize),
        None => Err(ConfigError::UnknownSpeed),
    }
}

/// The read/write buffer size the negotiated link speed allows; an
/// unrecognized speed is rejected here, never defaulted.
pub fn packet_size(speed: Option<LinkSpeed>) -> (r: Result<usize, ConfigError>)
    ensures
        r == spec_packet_size(speed),
{
    match speed {
        Some(LinkSpeed::Low) => Ok(64),
        Some(LinkSpeed::Full) => Ok(64),
        Some(LinkSpeed::High) => Ok(512),
        Some(LinkSpeed::Super) => Ok(1024),
        Some(LinkSpeed::SuperPlus) => Ok(1024),
        None => Err(ConfigError::UnknownSpeed),
    }
}

/// How large one received reply may be: the larger of the negotiated packet
/// size and the protocol's fixed reply bound of 512 bytes. A read request is
/// sized to this.
pub fn reply_buffer_len(bufsize: usize) -> (r: usize)
    ensures
        r == (if bufsize >= 512 {
            bufsize
        } else {
            512usize
        }),
{
    if bufsize >= 512 {
        bufsize
    } else {
        512
    }
}

/// `e` is a bulk endpoint of direction `dir`.
pub open spec fn is_bulk(e: EndpointDesc, dir: EndpointDirection) -> bool {
    e.kind == TransferKind::Bulk && e.direction == dir
}

/// The address of the first bulk endpoint of direction `dir`.
pub open spec fn spec_find_bulk(es: Seq<EndpointDesc>, dir: EndpointDirection) -> Option<u8>
    decreases es.len(),
{
    if es.len() == 0 {
        None
    } else if is_bulk(es[0], dir) {
        Some(es[0].address)
    } else {
        spec_find_bulk(es.drop_first(), dir)
    }
}

/// Some endpoint of the list is bulk with direction `dir`.
pub open spec fn has_bulk(es: Seq<EndpointDesc>, dir: EndpointDirection) -> bool {
    exists|i: int| 0 <= i < es.len() && is_bulk(es[i], dir)
}

/// The first bulk endpoint of a direction is found exactly when one exists.
pub proof fn lemma_find_bulk_exists(es: Seq<EndpointDesc>, dir: EndpointDirection)
    ensures
        spec_find_bulk(es, dir) is Some <==> has_bulk(es, dir),
    decreases es.len(),
{
    if es.len() > 0 {
        lemma_find_bulk_exists(es.drop_first(), dir);
        if is_bulk(es[0], dir) {
            assert(has_bulk(es, dir));
        } else {
            if has_bulk(es, dir) {
                let i = choose|i: int| 0 <= i < es.len() && is_bulk(es[i], dir);
                assert(es.drop_first()[i - 1] == es[i]);
                assert(has_bulk(es.drop_first(), dir));
            }
            if has_bulk(es.drop_first(), dir) {
                let i = choose|i: int|
                    0 <= i < es.drop_first().len() && is_bulk(es.drop_first()[i], dir);
                assert(es[i + 1] == es.drop_first()[i]);
                assert(has_bulk(es, dir));
            }
        }
    }
}

/// The address of the first bulk endpoint of direction `dir`, if any.
fn find_bulk(endpoints: &Vec<EndpointDesc>, dir: EndpointDirection) -> (r: Option<u8>)
    ensures
        r == spec_find_bulk(endpoints@, dir),
{
    let n = endpoints.len();
    let mut i: usize = 0;
    proof {
        assert(endpoints@.skip(0) =~= endpoints@);
    }
    while i < n
        invariant
            n == endpoints@.len(),
            i <= n,
            spec_find_bulk(endpoints@, dir) == spec_find_bulk(endpoints@.skip(i as int), dir),
        decreases n - i,
    {
        proof {
            assert(endpoints@.skip(i as int)[0] == endpoints@[i as int]);
            assert(endpoints@.skip(i as int).drop_first() =~= endpoints@.skip(i as int + 1));
        }
        let e = endpoints[i];
        if e.kind == TransferKind::Bulk && e.direction == dir {
            return Some(e.address);
        }
        i = i + 1;
    }
    proof {
        assert(endpoints@.skip(n as int) =~= Seq::<EndpointDesc>::empty());
    }
    None
}

/// Where the two bulk endpoints of an interface sit; a missing direction
/// names itself, the IN side first.
pub open spec fn spec_resolve_endpoints(es: Seq<EndpointDesc>) -> Result<(u8, u8), ConfigError> {
    match (spec_find_bulk(es, EndpointDirection::In), spec_find_bulk(es, EndpointDirection::Out)) {
        (Some(e_in), Some(e_out)) => Ok((e_in, e_out)),
        (None, _) => Err(ConfigError::MissingBulkIn),
        (Some(_), None) => Err(ConfigError::MissingBulkOut),
    }
}

/// Locates one bulk endpoint in each direction on the claimed interface:
/// the addresses of the first bulk-IN and the first bulk-OUT endpoint, or
/// the error naming what the interface lacks.
pub fn resolve_endpoints(endpoints: &Vec<EndpointDesc>) -> (r: Result<(u8, u8), ConfigError>)
    ensures
        r == spec_resolve_endpoints(endpoints@),
{
    let e_in = find_bulk(endpoints, EndpointDirection::In);
    let e_out = find_bulk(endpoints, EndpointDirection::Out);
    match (e_in, e_out) {
        (Some(a), Some(b)) => Ok((a, b)),
        (None, _) => Err(ConfigError::MissingBulkIn),
        (Some(_), None) => Err(ConfigError::MissingBulkOut),
    }
}

/// What a transport needs of a claimed interface: the negotiated buffer size
/// and the two bulk endpoint addresses.
#[derive(Clone, Copy, Debug, PartialEq, Eq, Structural)]
pub struct DeviceConfig {
    pub bufsize: usize,
    pub e_in: u8,
    pub e_out: u8,
}

/// The configuration a device handle is built from, or the first
/// construction-time error: an unusable speed, then a missing endpoint.
pub open spec fn spec_device_config(speed: Option<LinkSpeed>, es: Seq<EndpointDesc>) -> Result<
    DeviceConfig,
    ConfigError,
> {
    match spec_packet_size(speed) {
        Err(e) => Err(e),
        Ok(bufsize) => match spec_resolve_endpoints(es) {
            Err(e) => Err(e),
            Ok(pair) => Ok(DeviceConfig { bufsize: bufsize, e_in: pair.0, e_out: pair.1 }),
        },
    }
}

impl DeviceConfig {
    /// Settles everything a handle needs at construction time. Every error
    /// here prevents the handle from existing at all.
    pub fn resolve(speed: Option<LinkSpeed>, endpoints: &Vec<EndpointDesc>) -> (r: Result<
        DeviceConfig,
        ConfigError,
    >)
        ensures
            r == spec_device_config(speed, endpoints@),
    {
        let bufsize = match packet_size(speed) {
            Ok(n) => n,
            Err(e) => {
                return Err(e);
            },
        };
        match resolve_endpoints(endpoints) {
            Ok(pair) => Ok(DeviceConfig { bufsize: bufsize, e_in: pair.0, e_out: pair.1 }),
            Err(e) => Err(e),
        }
    }
}

/// An interface without a bulk-IN endpoint never yields a usable handle:
/// construction fails deterministically, and once the speed is usable the
/// error names the missing endpoint.
pub proof fn lemma_missing_bulk_in_fails(speed: Option<LinkSpeed>, es: Seq<EndpointDesc>)
    requires
        !has_bulk(es, EndpointDirection::In),
    ensures
        spec_device_config(speed, es) is Err,
        spec_packet_size(speed) is Ok ==> spec_device_config(speed, es) == Err::<
            DeviceConfig,
            ConfigError,
        >(ConfigError::MissingBulkIn),
{
    lemma_find_bulk_exists(es, EndpointDirection::In);
}

/// Whether an enumerated device is the one discovery looks for.
pub fn id_matches(vendor: u16, product: u16, want_vendor: u16, want_product: u16) -> (r: bool)
    ensures
        r == (vendor == want_vendor && product == want_product),
{
    vendor == want_vendor && product == want_product
}

} // verus!

//! The validation pipeline, run once per discovered advertisement.
//!
//! Fail-fast: the first failing step fixes the outcome, and every failure
//! resolves to a deny decision that the caller routes to a `trigger off`
//! write — processing of other devices is never aborted. Two failures
//! propagate as errors instead of decisions: an undecodable `device_id`
//! configuration entry, and a malformed schedule range; both are
//! configuration defects.

use vstd::prelude::*;

use crate::config::{Config, Device};
use crate::decoder;
use crate::decoder::{be_u32_at, token_block};
use crate::error::{Error, ErrorKind};
use crate::hexconf::{get_from_hex_array, hex_tokens_bytes};
use crate::policy;
use crate::policy::{spec_evaluate, PolicyDecision, Weekday};
use crate::replay;
use crate::replay::{guard_times, record_or_zero, spec_skew, ReplayRecord, ReplayStore};

verus! {

/// One discovery tick's view of a device: its address and the
/// manufacturer-specific data table it broadcast.
#[derive(Clone, Debug, PartialEq)]
pub struct Advertisement {
    /// Colon-hex address.
    pub address: String,
    /// Manufacturer id to raw payload, as observed in one tick.
    pub manufacturer_data: Vec<(u16, Vec<u8>)>,
}

/// Why a pipeline run denied access.
#[derive(Clone, Copy, Debug, PartialEq, Eq, Structural)]
pub enum DenyReason {
    /// The address is absent from configuration.
    UnknownDevice,
    /// The configured key string cannot be decoded.
    BadKeyEncoding,
    /// The decoded key is not 16 bytes.
    BadKeyLength,
    /// The advertisement has no entry for the configured manufacturer id.
    MissingManufacturerData,
    /// The manufacturer-data payload is not 24 bytes.
    BadPayloadLength,
    /// The decoded identity differs from the configured one.
    WrongCredential,
    /// The clock skew exceeded the tolerance.
    ClockSkew,
    /// No schedule entry exists for the current weekday.
    NoScheduleForDay,
    /// No declared range contains the current time.
    OutsideAllowedHours,
}

/// The mathematical value of a [`Decision`].
pub ghost struct DecisionView {
    pub granted: bool,
    pub device: Seq<char>,
    pub friendly_name: Seq<char>,
    pub reason: Option<DenyReason>,
}

/// The outcome of one pipeline run: admit or deny, and the identity the
/// presence write must use.
#[derive(Clone, Debug, PartialEq)]
pub struct Decision {
    /// Admit, to be routed to a `trigger on` write; deny routes to
    /// `trigger off`.
    pub granted: bool,
    /// The device address the presence entity is derived from.
    pub device: String,
    /// The display name: the configured one, or the address itself for a
    /// device absent from configuration.
    pub friendly_name: String,
    /// Why access was denied; admit carries none.
    pub reason: Option<DenyReason>,
}

impl View for Decision {
    type V = DecisionView;

    open spec fn view(&self) -> DecisionView {
        DecisionView {
            granted: self.granted,
            device: self.device@,
            friendly_name: self.friendly_name@,
            reason: self.reason,
        }
    }
}

/// A deny decision for `device` under the display name `name`.
pub open spec fn deny_view(device: Seq<char>, name: Seq<char>, reason: DenyReason) -> DecisionView {
    DecisionView { granted: false, device, friendly_name: name, reason: Some(reason) }
}

/// An admit decision for `device` under the display name `name`.
pub open spec fn grant_view(device: Seq<char>, name: Seq<char>) -> DecisionView {
    DecisionView { granted: true, device, friendly_name: name, reason: None }
}

/// The first configured device whose address equals `addr`.
pub open spec fn lookup_device(devs: Seq<(String, Device)>, addr: Seq<char>) -> Option<Device>
    decreases devs.len(),
{
    if devs.len() == 0 {
        None
    } else if devs.first().0@ == addr {
        Some(devs.first().1)
    } else {
        lookup_device(devs.drop_first(), addr)
    }
}

/// The first manufacturer-data entry with id `id`.
pub open spec fn lookup_md(md: Seq<(u16, Vec<u8>)>, id: u16) -> Option<Vec<u8>>
    decreases md.len(),
{
    if md.len() == 0 {
        None
    } else if md.first().0 == id {
        Some(md.first().1)
    } else {
        lookup_md(md.drop_first(), id)
    }
}

/// What one pipeline run leaves behind: its decision or error, and the
/// replay `timestamps` table as the run leaves it.
pub ghost struct QueryOutcome {
    pub result: Result<DecisionView, ErrorKind>,
    pub times: Map<Seq<char>, ReplayRecord>,
}

/// The whole pipeline, one step per nesting level: resolve configuration,
/// decode the key, pick the payload, decode the token, check the identity,
/// guard against replay and skew, and evaluate the weekly policy.
pub open spec fn spec_query(
    devices: Seq<(String, Device)>,
    allowed_skew: u32,
    address: Seq<char>,
    md: Seq<(u16, Vec<u8>)>,
    times: Map<Seq<char>, ReplayRecord>,
    now_wall: u64,
    weekday: Weekday,
    now_time: u32,
) -> QueryOutcome {
    match lookup_device(devices, address) {
        None => QueryOutcome {
            result: Ok(deny_view(address, address, DenyReason::UnknownDevice)),
            times,
        },
        Some(dev) => match hex_tokens_bytes(dev.key@) {
            None => QueryOutcome {
                result: Ok(deny_view(address, dev.name@, DenyReason::BadKeyEncoding)),
                times,
            },
            Some(key) => if key.len() != 16 {
                QueryOutcome {
                    result: Ok(deny_view(address, dev.name@, DenyReason::BadKeyLength)),
                    times,
                }
            } else {
                match lookup_md(md, dev.manufacture) {
                    None => QueryOutcome {
                        result: Ok(
                            deny_view(address, dev.name@, DenyReason::MissingManufacturerData),
                        ),
                        times,
                    },
                    Some(payload) => if payload@.len() != 24 {
                        QueryOutcome {
                            result: Ok(deny_view(address, dev.name@, DenyReason::BadPayloadLength)),
                            times,
                        }
                    } else {
                        match hex_tokens_bytes(dev.device_id@) {
                            None => QueryOutcome { result: Err(ErrorKind::Config), times },
                            Some(id) => if id.len() < 10 {
                                QueryOutcome { result: Err(ErrorKind::Config), times }
                            } else {
                                let block = token_block(payload@, key);
                                if block.subrange(0, 10) != id.take(10) {
                                    QueryOutcome {
                                        result: Ok(
                                            deny_view(address, dev.name@, DenyReason::WrongCredential),
                                        ),
                                        times,
                                    }
                                } else {
                                    let tag = be_u32_at(block, 12);
                                    let rec = record_or_zero(times, address);
                                    let new_times = guard_times(
                                        times,
                                        address,
                                        tag,
                                        allowed_skew,
                                        now_wall,
                                    );
                                    if spec_skew(rec, tag, now_wall) > allowed_skew {
                                        QueryOutcome {
                                            result: Ok(
                                                deny_view(address, dev.name@, DenyReason::ClockSkew),
                                            ),
                                            times: new_times,
                                        }
                                    } else {
                                        match spec_evaluate(dev.allowed_times@, weekday, now_time) {
                                            None => QueryOutcome {
                                                result: Err(ErrorKind::Policy),
                                                times: new_times,
                                            },
                                            Some(PolicyDecision::Admit) => QueryOutcome {
                                                result: Ok(grant_view(address, dev.name@)),
                                                times: new_times,
                                            },
                                            Some(PolicyDecision::DenyNoSchedule) => QueryOutcome {
                                                result: Ok(
                                                    deny_view(
                                                        address,
                                                        dev.name@,
                                                        DenyReason::NoScheduleForDay,
                                                    ),
                                                ),
                                                times: new_times,
                                            },
                                            Some(PolicyDecision::DenyOutsideHours) => QueryOutcome {
                                                result: Ok(
                                                    deny_view(
                                                        address,
                                                        dev.name@,
                                                        DenyReason::OutsideAllowedHours,
                                                    ),
                                                ),
                                                times: new_times,
                                            },
                                        }
                                    }
                                }
                            },
                        }
                    },
                }
            },
        },
    }
}

fn find_device<'a>(devices: &'a Vec<(String, Device)>, address: &String) -> (r: Option<&'a Device>)
    ensures
        match lookup_device(devices@, address@) {
            Some(d) => r matches Some(x) && *x == d,
            None => r is None,
        },
{
    let n = devices.len();
    let mut i: usize = 0;
    proof {
        assert(devices@.skip(0) =~= devices@);
    }
    while i < n
        invariant
            n == devices@.len(),
            i <= n,
            lookup_device(devices@, address@) == lookup_device(devices@.skip(i as int), address@),
        decreases n - i,
    {
        proof {
            assert(devices@.skip(i as int).first() == devices@[i as int]);
            assert(devices@.skip(i as int).drop_first() =~= devices@.skip(i + 1));
        }
        if devices[i].0.eq(address) {
            return Some(&devices[i].1);
        }
        i += 1;
    }
    proof {
        assert(devices@.skip(n as int) =~= Seq::<(String, Device)>::empty());
    }
    None
}

fn find_md<'a>(md: &'a Vec<(u16, Vec<u8>)>, id: u16) -> (r: Option<&'a Vec<u8>>)
    ensures
        match lookup_md(md@, id) {
            Some(p) => r matches Some(x) && *x == p,
            None => r is None,
        },
{
    let n = md.len();
    let mut i: usize = 0;
    proof {
        assert(md@.skip(0) =~= md@);
    }
    while i < n
        invariant
            n == md@.len(),
            i <= n,
            lookup_md(md@, id) == lookup_md(md@.skip(i as int), id),
        decreases n - i,
    {
        proof {
            assert(md@.skip(i as int).first() == md@[i as int]);
            assert(md@.skip(i as int).drop_first() =~= md@.skip(i + 1));
        }
        if md[i].0 == id {
            return Some(&md[i].1);
        }
        i += 1;
    }
    proof {
        assert(md@.skip(n as int) =~= Seq::<(u16, Vec<u8>)>::empty());
    }
    None
}

fn deny(device: &String, name: &String, reason: DenyReason) -> (d: Decision)
    ensures
        d@ == deny_view(device@, name@, reason),
{
    Decision { granted: false, device: device.clone(), friendly_name: name.clone(), reason: Some(reason) }
}

/// Runs the pipeline once for a discovered advertisement: the decision the
/// presence write must follow, and at most one monotonic advance of the
/// replay store. The wall clock, weekday and seconds since local midnight
/// are the caller's observation of "now".
#[verifier::loop_isolation(false)]
pub fn query_device(
    config: &Config,
    adv: &Advertisement,
    store: &mut ReplayStore,
    now_wall: u64,
    weekday: Weekday,
    now_time: u32,
) -> (r: Result<Decision, Error>)
    requires
        old(store).inv(),
    ensures
        final(store).inv(),
        final(store).restart_counters() == old(store).restart_counters(),
        ({
            let o = spec_query(
                config.devices@,
                config.allowed_skew,
                adv.address@,
                adv.manufacturer_data@,
                old(store).times(),
                now_wall,
                weekday,
                now_time,
            );
            &&& final(store).times() == o.times
            &&& match o.result {
                Ok(d) => r matches Ok(dec) && dec@ == d,
                Err(k) => r matches Err(e) && e.kind == k,
            }
        }),
{
    let dev = match find_device(&config.devices, &adv.address) {
        Some(d) => d,
        None => {
            return Ok(deny(&adv.address, &adv.address, DenyReason::UnknownDevice));
        },
    };
    let key = match get_from_hex_array(dev.key.as_str()) {
        Ok(k) => k,
        Err(_) => {
            return Ok(deny(&adv.address, &dev.name, DenyReason::BadKeyEncoding));
        },
    };
    if key.len() != 16 {
        return Ok(deny(&adv.address, &dev.name, DenyReason::BadKeyLength));
    }
    let payload = match find_md(&adv.manufacturer_data, dev.manufacture) {
        Some(p) => p,
        None => {
            return Ok(deny(&adv.address, &dev.name, DenyReason::MissingManufacturerData));
        },
    };
    if payload.len() != 24 {
        return Ok(deny(&adv.address, &dev.name, DenyReason::BadPayloadLength));
    }
    let id = match get_from_hex_array(dev.device_id.as_str()) {
        Ok(v) => v,
        Err(e) => {
            return Err(e);
        },
    };
    if id.len() < 10 {
        return Err(
            Error::categorized(ErrorKind::Config, "device_id has no index".to_owned()),
        );
    }
    let token = decoder::decode(payload.as_slice(), key.as_slice());
    let ghost block = token_block(payload@, key@);
    let mut i: usize = 0;
    while i < 10
        invariant
            i <= 10,
            block == token_block(payload@, key@),
            token.device_id@ == block.subrange(0, 10),
            token.device_id@.len() == 10,
            id@.len() >= 10,
            forall|j: int| 0 <= j < i ==> block.subrange(0, 10)[j] == id@.take(10)[j],
        decreases 10 - i,
    {
        if token.device_id[i] != id[i] {
            proof {
                assert(block.subrange(0, 10)[i as int] != id@.take(10)[i as int]);
            }
            return Ok(deny(&adv.address, &dev.name, DenyReason::WrongCredential));
        }
        i += 1;
    }
    proof {
        assert(block.subrange(0, 10) =~= id@.take(10));
    }
    match replay::evaluate(store, &adv.address, token.tag_timestamp, config.allowed_skew, now_wall)
    {
        Ok(_) => {},
        Err(_) => {
            return Ok(deny(&adv.address, &dev.name, DenyReason::ClockSkew));
        },
    }
    match policy::evaluate(&dev.allowed_times, weekday, now_time) {
        Ok(PolicyDecision::Admit) => Ok(
            Decision {
                granted: true,
                device: adv.address.clone(),
                friendly_name: dev.name.clone(),
                reason: None,
            },
        ),
        Ok(PolicyDecision::DenyNoSchedule) => Ok(
            deny(&adv.address, &dev.name, DenyReason::NoScheduleForDay),
        ),
        Ok(PolicyDecision::DenyOutsideHours) => Ok(
            deny(&adv.address, &dev.name, DenyReason::OutsideAllowedHours),
        ),
        Err(e) => Err(e),
    }
}

/// An address absent from configuration always resolves to a deny under the
/// raw address as both id and display name, and never touches the store.
pub proof fn lemma_unknown_device(
    devices: Seq<(String, Device)>,
    allowed_skew: u32,
    address: Seq<char>,
    md: Seq<(u16, Vec<u8>)>,
    times: Map<Seq<char>, ReplayRecord>,
    now_wall: u64,
    weekday: Weekday,
    now_time: u32,
)
    requires
        lookup_device(devices, address) is None,
    ensures
        spec_query(devices, allowed_skew, address, md, times, now_wall, weekday, now_time).result
            == Ok::<DecisionView, ErrorKind>(
            deny_view(address, address, DenyReason::UnknownDevice),
        ),
        spec_query(devices, allowed_skew, address, md, times, now_wall, weekday, now_time).times
            == times,
{
}

/// A decoded identity differing from the configured one in any byte denies
/// with `WrongCredential` and leaves the replay store untouched.
pub proof fn lemma_identity_mismatch(
    devices: Seq<(String, Device)>,
    allowed_skew: u32,
    address: Seq<char>,
    md: Seq<(u16, Vec<u8>)>,
    times: Map<Seq<char>, ReplayRecord>,
    now_wall: u64,
    weekday: Weekday,
    now_time: u32,
    dev: Device,
    key: Seq<u8>,
    payload: Vec<u8>,
    id: Seq<u8>,
    j: int,
)
    requires
        lookup_device(devices, address) == Some(dev),
        hex_tokens_bytes(dev.key@) == Some(key),
        key.len() == 16,
        lookup_md(md, dev.manufacture) == Some(payload),
        payload@.len() == 24,
        hex_tokens_bytes(dev.device_id@) == Some(id),
        id.len() >= 10,
        0 <= j < 10,
        token_block(payload@, key)[j] != id[j],
    ensures
        spec_query(devices, allowed_skew, address, md, times, now_wall, weekday, now_time).result
            == Ok::<DecisionView, ErrorKind>(
            deny_view(address, dev.name@, DenyReason::WrongCredential),
        ),
        spec_query(devices, allowed_skew, address, md, times, now_wall, weekday, now_time).times
            == times,
{
    let block = token_block(payload@, key);
    assert(block.subrange(0, 10)[j] == block[j]);
    assert(id.take(10)[j] == id[j]);
}

} // verus!

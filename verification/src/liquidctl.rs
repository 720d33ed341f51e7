//! The data `liquidctl` reports, and the decoding of a `--json status`
//! reply into one device's readings.
//!
//! The JSON text itself is read elsewhere; here each status entry arrives
//! as its key plus its number in the two integer forms the status fields
//! use (an rpm clamped to the `u32` range, a percentage clamped to
//! `0..=100`).

use crate::text::{
    chars_of, decimal, find_char, first_index_of, is_digit, lemma_decimal_digits, lemma_parse_decimal,
    parse_bounded, parse_bounded_exec, str_eq,
};
use std::collections::BTreeMap;
use vstd::prelude::*;
use vstd::string::StrSliceExecFns;

verus! {

broadcast use vstd::std_specs::btree::group_btree_axioms;

#[derive(Debug, Clone, Copy)]
pub struct Pump {
    pub speed_rpm: u32,
    pub duty_pct: u8,
}

#[derive(Debug, Clone, Copy)]
pub struct Fan {
    pub index: u8,
    pub speed_rpm: u32,
    pub duty_pct: u8,
}

/// A device returned by `liquidctl list --json`.
#[derive(Debug, Clone)]
pub struct DetectedDevice {
    pub description: String,
    pub bus: String,
    pub address: String,
}

/// A status entry's number, in the forms the status fields store it: as an
/// rpm clamped to `0..=u32::MAX` and as a percentage clamped to `0..=100`.
#[derive(Debug, Clone, Copy)]
pub struct ClampedValue {
    pub rpm: u32,
    pub pct: u8,
}

/// One entry of a device's `status` array. `value` is `None` when the
/// entry's number has no `f64` reading.
#[derive(Debug, Clone)]
pub struct StatusEntry {
    pub key: String,
    pub value: Option<ClampedValue>,
}

/// One device of a `liquidctl --json status` reply.
#[derive(Debug, Clone)]
pub struct DeviceEntry {
    pub description: String,
    pub status: Vec<StatusEntry>,
}

/// The readings decoded from a status reply. The liquid temperature is
/// given by position: it is the number of
/// `devices[device].status[liquid_temp_entry]`.
#[derive(Debug, Clone)]
pub struct DecodedStatus {
    pub device: usize,
    pub description: String,
    pub liquid_temp_entry: usize,
    pub pump: Pump,
    pub fans: Vec<Fan>,
}

/// Why a status reply held no usable reading.
#[derive(Debug, Clone, Copy, PartialEq, Eq)]
pub enum StatusError {
    /// No device reported a non-empty status array.
    NoDevice,
    /// The chosen device lacks a required field, named here.
    MissingField(&'static str),
}

/// What `split_fan_key` returns for the text after `"Fan "`: the index
/// before the first space (a decimal `u8` other than 0) and the text after
/// that space.
pub open spec fn spec_split_fan_key(rest: Seq<char>) -> Option<(u8, Seq<char>)> {
    if exists|k: int| first_index_of(rest, ' ', k) {
        let k = choose|k: int| first_index_of(rest, ' ', k);
        match parse_bounded(rest.take(k), 255) {
            Some(n) => if n == 0 {
                None
            } else {
                Some((n as u8, rest.skip(k + 1)))
            },
            None => None,
        }
    } else {
        None
    }
}

/// Given the portion of a status key after `"Fan "`, return the fan index
/// (a positive integer) and the trailing suffix (e.g. `"speed"` or `"duty"`),
/// or `None` if the key does not match the `Fan N <suffix>` pattern.
pub fn split_fan_key(rest: &str) -> (r: Option<(u8, &str)>)
    ensures
        r is Some == spec_split_fan_key(rest@) is Some,
        r matches Some((n, suffix)) ==> spec_split_fan_key(rest@) == Some((n, suffix@)),
{
    let cs = chars_of(rest);
    let k = match find_char(&cs, ' ') {
        Some(k) => k,
        None => {
            return None;
        },
    };
    proof {
        assert(first_index_of(rest@, ' ', k as int));
        assert forall|j: int| first_index_of(rest@, ' ', j) implies j == k by {
            if j < k {
                assert(rest@[j] != ' ');
            }
            if j > k {
                assert(rest@[k as int] != ' ');
            }
        }
    }
    let num_str = rest.substring_char(0, k);
    let suffix = rest.substring_char(k + 1, cs.len());
    assert(rest@.subrange(0, k as int) =~= rest@.take(k as int));
    assert(rest@.subrange(k + 1, cs.len() as int) =~= rest@.skip(k + 1));
    let num = match parse_bounded_exec(num_str, 255) {
        Some(n) => n,
        None => {
            return None;
        },
    };
    if num == 0 {
        return None;
    }
    Some((num as u8, suffix))
}

/// What the status scan has collected so far.
pub struct ScanState {
    /// Position of the latest numeric "Liquid temperature" entry.
    pub liquid: Option<int>,
    pub pump_speed: Option<u32>,
    pub pump_duty: Option<u8>,
    /// Per-fan (speed, duty), keyed by fan index.
    pub fans: Map<u8, (Option<u32>, Option<u8>)>,
}

pub open spec fn initial_scan() -> ScanState {
    ScanState { liquid: None, pump_speed: None, pump_duty: None, fans: Map::empty() }
}

/// `key` starts with `"Fan "`.
pub open spec fn has_fan_prefix(key: Seq<char>) -> bool {
    key.len() >= 4 && key.take(4) == "Fan "@
}

/// The scan state after reading entry `i` (`key`, `value`). A number-less
/// entry, and an entry whose key is none of the known ones, change nothing.
pub open spec fn scan_step(
    st: ScanState,
    i: int,
    key: Seq<char>,
    value: Option<ClampedValue>,
) -> ScanState {
    match value {
        None => st,
        Some(v) => if key == "Liquid temperature"@ {
            ScanState { liquid: Some(i), ..st }
        } else if key == "Pump speed"@ {
            ScanState { pump_speed: Some(v.rpm), ..st }
        } else if key == "Pump duty"@ {
            ScanState { pump_duty: Some(v.pct), ..st }
        } else if has_fan_prefix(key) && spec_split_fan_key(key.skip(4)) is Some {
            let (num, suffix) = spec_split_fan_key(key.skip(4)).unwrap();
            let slot = if st.fans.contains_key(num) {
                st.fans[num]
            } else {
                (None, None)
            };
            let slot = if suffix == "speed"@ {
                (Some(v.rpm), slot.1)
            } else if suffix == "duty"@ {
                (slot.0, Some(v.pct))
            } else {
                slot
            };
            ScanState { fans: st.fans.insert(num, slot), ..st }
        } else {
            st
        },
    }
}

/// The scan state after reading every entry of `entries`, in order.
pub open spec fn scan(entries: Seq<StatusEntry>) -> ScanState
    decreases entries.len(),
{
    if entries.len() == 0 {
        initial_scan()
    } else {
        let last = entries.last();
        scan_step(scan(entries.drop_last()), entries.len() - 1, last.key@, last.value)
    }
}

/// The fans with both a speed and a duty, among indices below `upto`, in
/// increasing index order.
pub open spec fn complete_fans(fans: Map<u8, (Option<u32>, Option<u8>)>, upto: int) -> Seq<Fan>
    decreases upto,
{
    if upto <= 0 {
        Seq::empty()
    } else {
        let k = (upto - 1) as u8;
        let prev = complete_fans(fans, upto - 1);
        if fans.contains_key(k) && fans[k].0 is Some && fans[k].1 is Some {
            prev.push(Fan { index: k, speed_rpm: fans[k].0.unwrap(), duty_pct: fans[k].1.unwrap() })
        } else {
            prev
        }
    }
}

/// `i` is the first device with a non-empty status array.
pub open spec fn first_with_status(devices: Seq<DeviceEntry>, i: int) -> bool {
    0 <= i < devices.len() && devices[i].status.len() > 0 && forall|j: int|
        0 <= j < i ==> (#[trigger] devices[j]).status.len() == 0
}

/// What decoding a status reply gives, over the devices it lists.
pub open spec fn decode_outcome(devices: Seq<DeviceEntry>) -> Result<
    (int, Seq<char>, int, Pump, Seq<Fan>),
    StatusError,
> {
    if !exists|i: int| first_with_status(devices, i) {
        Err(StatusError::NoDevice)
    } else {
        let i = choose|i: int| first_with_status(devices, i);
        let st = scan(devices[i].status@);
        if st.liquid is None {
            Err(StatusError::MissingField("liquid temperature"))
        } else if st.pump_speed is None {
            Err(StatusError::MissingField("pump speed"))
        } else if st.pump_duty is None {
            Err(StatusError::MissingField("pump duty"))
        } else {
            Ok(
                (
                    i,
                    devices[i].description@,
                    st.liquid.unwrap(),
                    Pump { speed_rpm: st.pump_speed.unwrap(), duty_pct: st.pump_duty.unwrap() },
                    complete_fans(st.fans, 256),
                ),
            )
        }
    }
}


/// The scan state as the decoder holds it.
struct Scan {
    liquid: Option<usize>,
    pump_speed: Option<u32>,
    pump_duty: Option<u8>,
    fans: BTreeMap<u8, (Option<u32>, Option<u8>)>,
}

impl Scan {
    spec fn view(&self) -> ScanState {
        ScanState {
            liquid: match self.liquid {
                Some(i) => Some(i as int),
                None => None,
            },
            pump_speed: self.pump_speed,
            pump_duty: self.pump_duty,
            fans: self.fans@,
        }
    }
}

fn starts_with_fan(key: &str) -> (r: bool)
    ensures
        r == has_fan_prefix(key@),
{
    let n = key.unicode_len();
    if n < 4 {
        return false;
    }
    let head = key.substring_char(0, 4);
    assert(key@.subrange(0, 4) =~= key@.take(4));
    str_eq(head, "Fan ")
}

/// Reads entry `i` into the scan state.
fn scan_entry(st: &mut Scan, i: usize, entry: &StatusEntry)
    ensures
        final(st).view() == scan_step(old(st).view(), i as int, entry.key@, entry.value),
{
    let v = match entry.value {
        Some(v) => v,
        None => {
            return;
        },
    };
    let key = entry.key.as_str();
    if str_eq(key, "Liquid temperature") {
        st.liquid = Some(i);
    } else if str_eq(key, "Pump speed") {
        st.pump_speed = Some(v.rpm);
    } else if str_eq(key, "Pump duty") {
        st.pump_duty = Some(v.pct);
    } else if starts_with_fan(key) {
        let n = key.unicode_len();
        let rest = key.substring_char(4, n);
        assert(key@.subrange(4, n as int) =~= key@.skip(4));
        if let Some((num, suffix)) = split_fan_key(rest) {
            let slot: (Option<u32>, Option<u8>) = match st.fans.get(&num) {
                Some(s) => *s,
                None => (None, None),
            };
            let slot = if str_eq(suffix, "speed") {
                (Some(v.rpm), slot.1)
            } else if str_eq(suffix, "duty") {
                (slot.0, Some(v.pct))
            } else {
                slot
            };
            st.fans.insert(num, slot);
        }
    }
}

/// Decodes a `liquidctl --json status` reply: picks the first device with a
/// non-empty status array, reads its liquid temperature, pump speed and
/// duty, and every fan that reports both a speed and a duty, in index order.
pub fn decode_status(devices: &Vec<DeviceEntry>) -> (r: Result<DecodedStatus, StatusError>)
    ensures
        match (r, decode_outcome(devices@)) {
            (Ok(d), Ok((i, description, liquid, pump, fans))) => {
                &&& d.device == i
                &&& d.description@ == description
                &&& d.liquid_temp_entry == liquid
                &&& d.pump == pump
                &&& d.fans@ == fans
            },
            (Err(e), Err(f)) => e == f,
            _ => false,
        },
{
    let mut found: Option<usize> = None;
    for i in 0..devices.len()
        invariant
            found is None ==> forall|j: int| 0 <= j < i ==> (#[trigger] devices@[j]).status.len() == 0,
            found matches Some(k) ==> first_with_status(devices@, k as int),
    {
        if found.is_none() && devices[i].status.len() > 0 {
            found = Some(i);
        }
    }
    let index = match found {
        Some(k) => k,
        None => {
            proof {
                assert forall|i: int| !first_with_status(devices@, i) by {
                    if first_with_status(devices@, i) {
                        assert(devices@[i].status.len() == 0);
                    }
                }
            }
            return Err(StatusError::NoDevice);
        },
    };
    proof {
        assert forall|j: int| first_with_status(devices@, j) implies j == index by {
            if j < index {
                assert(devices@[j].status.len() == 0);
            }
            if j > index {
                assert(devices@[index as int].status.len() == 0);
            }
        }
    }
    let device = &devices[index];
    let mut st = Scan { liquid: None, pump_speed: None, pump_duty: None, fans: BTreeMap::new() };
    assert(st.view().fans =~= initial_scan().fans);
    for i in 0..device.status.len()
        invariant
            st.view() == scan(device.status@.take(i as int)),
    {
        scan_entry(&mut st, i, &device.status[i]);
        assert(device.status@.take(i + 1).drop_last() =~= device.status@.take(i as int));
    }
    assert(device.status@.take(device.status.len() as int) =~= device.status@);
    let liquid_temp_entry = match st.liquid {
        Some(k) => k,
        None => {
            return Err(StatusError::MissingField("liquid temperature"));
        },
    };
    let speed_rpm = match st.pump_speed {
        Some(s) => s,
        None => {
            return Err(StatusError::MissingField("pump speed"));
        },
    };
    let duty_pct = match st.pump_duty {
        Some(d) => d,
        None => {
            return Err(StatusError::MissingField("pump duty"));
        },
    };
    let mut fans: Vec<Fan> = Vec::new();
    let mut k: u16 = 0;
    while k < 256
        invariant
            k <= 256,
            fans@ == complete_fans(st.fans@, k as int),
        decreases 256 - k,
    {
        let key = k as u8;
        if let Some(slot) = st.fans.get(&key) {
            if let (Some(speed), Some(duty)) = *slot {
                fans.push(Fan { index: key, speed_rpm: speed, duty_pct: duty });
            }
        }
        k = k + 1;
    }
    Ok(
        DecodedStatus {
            device: index,
            description: device.description.clone(),
            liquid_temp_entry,
            pump: Pump { speed_rpm, duty_pct },
            fans,
        },
    )
}


proof fn lemma_complete_fans_sorted(fans: Map<u8, (Option<u32>, Option<u8>)>, upto: int)
    requires
        0 <= upto <= 256,
    ensures
        forall|i: int| 0 <= i < complete_fans(fans, upto).len() ==> (#[trigger] complete_fans(fans, upto)[i]).index < upto,
        forall|i: int, j: int|
            0 <= i < j < complete_fans(fans, upto).len() ==> (#[trigger] complete_fans(fans, upto)[i]).index
                < (#[trigger] complete_fans(fans, upto)[j]).index,
        forall|i: int|
            0 <= i < complete_fans(fans, upto).len() ==> {
                let f = #[trigger] complete_fans(fans, upto)[i];
                fans.contains_key(f.index) && fans[f.index] == (Some(f.speed_rpm), Some(f.duty_pct))
            },
    decreases upto,
{
    if upto > 0 {
        lemma_complete_fans_sorted(fans, upto - 1);
        let prev = complete_fans(fans, upto - 1);
        let cur = complete_fans(fans, upto);
        assert forall|i: int| 0 <= i < prev.len() implies cur[i] == prev[i] by {}
    }
}

proof fn lemma_scan_keys_nonzero(entries: Seq<StatusEntry>)
    ensures
        !scan(entries).fans.contains_key(0u8),
    decreases entries.len(),
{
    if entries.len() > 0 {
        lemma_scan_keys_nonzero(entries.drop_last());
    }
}

/// The decoded fans come out sorted by strictly increasing index, none of
/// them is `Fan 0`, and each is a fan the chosen device reported both a
/// speed and a duty for.
pub proof fn lemma_decoded_fans_sorted(devices: Seq<DeviceEntry>)
    requires
        decode_outcome(devices) is Ok,
    ensures
        ({
            let (i, _, _, _, fans) = decode_outcome(devices)->Ok_0;
            let slots = scan(devices[i].status@).fans;
            &&& forall|a: int, b: int|
                0 <= a < b < fans.len() ==> (#[trigger] fans[a]).index < (#[trigger] fans[b]).index
            &&& forall|a: int| 0 <= a < fans.len() ==> (#[trigger] fans[a]).index != 0
            &&& forall|a: int|
                0 <= a < fans.len() ==> slots[(#[trigger] fans[a]).index] == (
                    Some(fans[a].speed_rpm),
                    Some(fans[a].duty_pct),
                )
        }),
{
    let i = choose|i: int| first_with_status(devices, i);
    let slots = scan(devices[i].status@).fans;
    lemma_complete_fans_sorted(slots, 256);
    lemma_scan_keys_nonzero(devices[i].status@);
    let fans = complete_fans(slots, 256);
    assert forall|a: int| 0 <= a < fans.len() implies (#[trigger] fans[a]).index != 0 by {
        assert(slots.contains_key(fans[a].index));
    }
}


proof fn lemma_scan_liquid(entries: Seq<StatusEntry>)
    ensures
        scan(entries).liquid matches Some(k) ==> {
            &&& 0 <= k < entries.len()
            &&& entries[k].key@ == "Liquid temperature"@
            &&& entries[k].value is Some
            &&& forall|j: int|
                k < j < entries.len() ==> !((#[trigger] entries[j]).key@ == "Liquid temperature"@
                    && entries[j].value is Some)
        },
        scan(entries).liquid is None ==> forall|j: int|
            0 <= j < entries.len() ==> !((#[trigger] entries[j]).key@ == "Liquid temperature"@
                && entries[j].value is Some),
    decreases entries.len(),
{
    if entries.len() > 0 {
        let prev = entries.drop_last();
        lemma_scan_liquid(prev);
        assert forall|j: int| 0 <= j < prev.len() implies prev[j] == entries[j] by {}
    }
}

/// The liquid temperature is read from the chosen device's last
/// "Liquid temperature" entry that has a number: the position decoding
/// gives is inside that device's status array and names such an entry.
pub proof fn lemma_liquid_entry_is_last_temperature_reading(devices: Seq<DeviceEntry>)
    requires
        decode_outcome(devices) is Ok,
    ensures
        ({
            let (i, _, k, _, _) = decode_outcome(devices)->Ok_0;
            let status = devices[i].status@;
            &&& 0 <= i < devices.len()
            &&& 0 <= k < status.len()
            &&& status[k].key@ == "Liquid temperature"@
            &&& status[k].value is Some
            &&& forall|j: int|
                k < j < status.len() ==> !((#[trigger] status[j]).key@ == "Liquid temperature"@
                    && status[j].value is Some)
        }),
{
    let i = choose|i: int| first_with_status(devices, i);
    lemma_scan_liquid(devices[i].status@);
}

/// The key `liquidctl` reports fan `k`'s reading under: `Fan k speed`,
/// `Fan k duty`.
pub open spec fn fan_key(k: u8, reading: Seq<char>) -> Seq<char> {
    "Fan "@ + decimal(k as nat) + " "@ + reading
}

/// Some entry of `entries` carries a number under `key`.
pub open spec fn reports_number(entries: Seq<StatusEntry>, key: Seq<char>) -> bool {
    exists|a: int| 0 <= a < entries.len() && (#[trigger] entries[a]).key@ == key && entries[a].value is Some
}

proof fn lemma_fan_key_splits(k: u8, reading: Seq<char>)
    requires
        k != 0,
    ensures
        has_fan_prefix(fan_key(k, reading)),
        spec_split_fan_key(fan_key(k, reading).skip(4)) == Some((k, reading)),
        fan_key(k, reading) != "Liquid temperature"@,
        fan_key(k, reading) != "Pump speed"@,
        fan_key(k, reading) != "Pump duty"@,
{
    reveal_strlit("Fan ");
    reveal_strlit(" ");
    reveal_strlit("Liquid temperature");
    reveal_strlit("Pump speed");
    reveal_strlit("Pump duty");
    let key = fan_key(k, reading);
    let d = decimal(k as nat);
    lemma_decimal_digits(k as nat);
    lemma_parse_decimal(k as nat, 255);
    assert(key.take(4) =~= "Fan "@);
    let rest = key.skip(4);
    assert(rest =~= d + " "@ + reading);
    let m = d.len() as int;
    assert(rest[m] == ' ');
    assert forall|j: int| 0 <= j < m implies rest[j] != ' ' by {
        assert(rest[j] == d[j]);
        assert(is_digit(d[j]));
    }
    assert(first_index_of(rest, ' ', m));
    assert forall|j: int| first_index_of(rest, ' ', j) implies j == m by {
        if j < m {
            assert(rest[j] == d[j]);
            assert(is_digit(d[j]));
        }
    }
    assert(rest.take(m) =~= d);
    assert(rest.skip(m + 1) =~= reading);
    assert(key[0] == 'F');
    assert("Liquid temperature"@[0] == 'L');
    assert("Pump speed"@[0] == 'P');
    assert("Pump duty"@[0] == 'P');
}

/// Once fan `k` has a speed (or a duty) in the scan, later entries keep it.
proof fn lemma_scan_step_keeps_fan(st: ScanState, i: int, key: Seq<char>, value: Option<ClampedValue>, k: u8)
    ensures
        st.fans.contains_key(k) && st.fans[k].0 is Some ==> scan_step(st, i, key, value).fans.contains_key(k)
            && scan_step(st, i, key, value).fans[k].0 is Some,
        st.fans.contains_key(k) && st.fans[k].1 is Some ==> scan_step(st, i, key, value).fans.contains_key(k)
            && scan_step(st, i, key, value).fans[k].1 is Some,
{
}

/// A numbered `Fan k speed` (`Fan k duty`) entry gives fan `k` a speed
/// (a duty) in the scan.
proof fn lemma_scan_step_reads_fan(st: ScanState, i: int, key: Seq<char>, value: Option<ClampedValue>, k: u8)
    requires
        k != 0,
        value is Some,
    ensures
        key == fan_key(k, "speed"@) ==> scan_step(st, i, key, value).fans.contains_key(k)
            && scan_step(st, i, key, value).fans[k].0 is Some,
        key == fan_key(k, "duty"@) ==> scan_step(st, i, key, value).fans.contains_key(k)
            && scan_step(st, i, key, value).fans[k].1 is Some,
{
    lemma_fan_key_splits(k, "speed"@);
    lemma_fan_key_splits(k, "duty"@);
    reveal_strlit("speed");
    reveal_strlit("duty");
    assert("speed"@ != "duty"@) by {
        assert("speed"@[0] != "duty"@[0]);
    }
}

proof fn lemma_scan_reads_fan(entries: Seq<StatusEntry>, k: u8)
    requires
        k != 0,
    ensures
        reports_number(entries, fan_key(k, "speed"@)) ==> scan(entries).fans.contains_key(k)
            && scan(entries).fans[k].0 is Some,
        reports_number(entries, fan_key(k, "duty"@)) ==> scan(entries).fans.contains_key(k)
            && scan(entries).fans[k].1 is Some,
    decreases entries.len(),
{
    if entries.len() > 0 {
        let prev = entries.drop_last();
        let n = entries.len() - 1;
        let last = entries.last();
        lemma_scan_reads_fan(prev, k);
        lemma_scan_step_keeps_fan(scan(prev), n, last.key@, last.value, k);
        if last.value is Some {
            lemma_scan_step_reads_fan(scan(prev), n, last.key@, last.value, k);
        }
        assert forall|what: Seq<char>| #[trigger] reports_number(entries, fan_key(k, what))
            && !(last.key@ == fan_key(k, what) && last.value is Some)
            implies reports_number(prev, fan_key(k, what)) by {
            let a = choose|a: int| 0 <= a < entries.len() && (#[trigger] entries[a]).key@ == fan_key(k, what)
                && entries[a].value is Some;
            assert(a < n);
            assert(prev[a] == entries[a]);
        }
    }
}

proof fn lemma_complete_fans_has(fans: Map<u8, (Option<u32>, Option<u8>)>, upto: int, k: u8)
    requires
        0 <= upto <= 256,
        (k as int) < upto,
        fans.contains_key(k),
        fans[k].0 is Some,
        fans[k].1 is Some,
    ensures
        exists|a: int| 0 <= a < complete_fans(fans, upto).len() && (#[trigger] complete_fans(fans, upto)[a]).index == k,
    decreases upto,
{
    let cur = complete_fans(fans, upto);
    if (k as int) == upto - 1 {
        assert(cur[cur.len() - 1].index == k);
    } else {
        lemma_complete_fans_has(fans, upto - 1, k);
        let prev = complete_fans(fans, upto - 1);
        let a = choose|a: int| 0 <= a < prev.len() && (#[trigger] prev[a]).index == k;
        assert(cur[a] == prev[a]);
    }
}

/// No fan is lost: every fan `k` (other than `Fan 0`) for which the chosen
/// device reports both a numeric `Fan k speed` and a numeric `Fan k duty`
/// is among the decoded fans, whatever its speed or duty — a stopped fan
/// at 0 rpm included.
pub proof fn lemma_decoded_fans_complete(devices: Seq<DeviceEntry>, k: u8)
    requires
        decode_outcome(devices) is Ok,
        k != 0,
        ({
            let (i, _, _, _, _) = decode_outcome(devices)->Ok_0;
            &&& reports_number(devices[i].status@, fan_key(k, "speed"@))
            &&& reports_number(devices[i].status@, fan_key(k, "duty"@))
        }),
    ensures
        ({
            let (_, _, _, _, fans) = decode_outcome(devices)->Ok_0;
            exists|a: int| 0 <= a < fans.len() && (#[trigger] fans[a]).index == k
        }),
{
    let i = choose|i: int| first_with_status(devices, i);
    let status = devices[i].status@;
    lemma_scan_reads_fan(status, k);
    lemma_complete_fans_has(scan(status).fans, 256, k);
    let fans = complete_fans(scan(status).fans, 256);
    assert(decode_outcome(devices)->Ok_0.4 == fans);
    let a = choose|a: int| 0 <= a < fans.len() && (#[trigger] fans[a]).index == k;
    assert(0 <= a < fans.len() && fans[a].index == k);
}

/// `key` names fan `k`'s `reading`: it is `Fan `, then `k` as `str::parse`
/// reads a `u8`, a space, and `reading`.
pub open spec fn names_fan_reading(key: Seq<char>, k: u8, reading: Seq<char>) -> bool {
    has_fan_prefix(key) && spec_split_fan_key(key.skip(4)) == Some((k, reading))
}

/// Entry `a` is the last entry of `entries` that carries a number under
/// exactly `key`.
pub open spec fn last_number_under(entries: Seq<StatusEntry>, a: int, key: Seq<char>) -> bool {
    &&& 0 <= a < entries.len()
    &&& entries[a].key@ == key
    &&& entries[a].value is Some
    &&& forall|j: int|
        a < j < entries.len() ==> !((#[trigger] entries[j]).key@ == key && entries[j].value is Some)
}

/// Entry `a` is the last entry of `entries` that carries a number for fan
/// `k`'s `reading`.
pub open spec fn last_fan_number(entries: Seq<StatusEntry>, a: int, k: u8, reading: Seq<char>) -> bool {
    &&& 0 <= a < entries.len()
    &&& names_fan_reading(entries[a].key@, k, reading)
    &&& entries[a].value is Some
    &&& forall|j: int|
        a < j < entries.len() ==> !(names_fan_reading((#[trigger] entries[j]).key@, k, reading)
            && entries[j].value is Some)
}

proof fn lemma_known_keys_are_not_fan_keys(key: Seq<char>)
    ensures
        key == "Liquid temperature"@ ==> !has_fan_prefix(key),
        key == "Pump speed"@ ==> !has_fan_prefix(key),
        key == "Pump duty"@ ==> !has_fan_prefix(key),
{
    reveal_strlit("Fan ");
    reveal_strlit("Liquid temperature");
    reveal_strlit("Pump speed");
    reveal_strlit("Pump duty");
    if has_fan_prefix(key) {
        assert(key[0] == key.take(4)[0]);
        assert(key[0] == 'F');
    }
}

proof fn lemma_scan_readings(entries: Seq<StatusEntry>, k: u8)
    ensures
        scan(entries).pump_speed matches Some(v) ==> exists|a: int|
            last_number_under(entries, a, "Pump speed"@) && (#[trigger] entries[a]).value->Some_0.rpm
                == v,
        scan(entries).pump_duty matches Some(v) ==> exists|a: int|
            last_number_under(entries, a, "Pump duty"@) && (#[trigger] entries[a]).value->Some_0.pct
                == v,
        scan(entries).fans.contains_key(k) ==> (scan(entries).fans[k].0 matches Some(v) ==> exists|
            a: int,
        |
            last_fan_number(entries, a, k, "speed"@) && (#[trigger] entries[a]).value->Some_0.rpm
                == v),
        scan(entries).fans.contains_key(k) ==> (scan(entries).fans[k].1 matches Some(v) ==> exists|
            a: int,
        |
            last_fan_number(entries, a, k, "duty"@) && (#[trigger] entries[a]).value->Some_0.pct
                == v),
    decreases entries.len(),
{
    reveal_strlit("speed");
    reveal_strlit("duty");
    reveal_strlit("Pump speed");
    reveal_strlit("Pump duty");
    assert("speed"@ != "duty"@) by {
        assert("speed"@[0] != "duty"@[0]);
    }
    reveal_strlit("Liquid temperature");
    assert("Pump speed"@ != "Pump duty"@) by {
        assert("Pump speed"@[5] != "Pump duty"@[5]);
    }
    assert("Pump speed"@ != "Liquid temperature"@) by {
        assert("Pump speed"@[0] != "Liquid temperature"@[0]);
    }
    assert("Pump duty"@ != "Liquid temperature"@) by {
        assert("Pump duty"@[0] != "Liquid temperature"@[0]);
    }
    if entries.len() > 0 {
        let prev = entries.drop_last();
        let n = entries.len() - 1;
        let e = entries.last();
        lemma_scan_readings(prev, k);
        lemma_known_keys_are_not_fan_keys(e.key@);
        assert forall|j: int| 0 <= j < prev.len() implies prev[j] == entries[j] by {}
        let before = scan(prev);
        let after = scan(entries);
        assert(after == scan_step(before, n, e.key@, e.value));
        // Pump speed.
        if after.pump_speed is Some {
            if e.value is Some && e.key@ == "Pump speed"@ {
                assert(last_number_under(entries, n, "Pump speed"@));
                assert(entries[n].value->Some_0.rpm == after.pump_speed->Some_0);
            } else {
                assert(after.pump_speed == before.pump_speed);
                let a = choose|a: int|
                    last_number_under(prev, a, "Pump speed"@) && (#[trigger] prev[a]).value->Some_0.rpm
                        == before.pump_speed->Some_0;
                assert(last_number_under(entries, a, "Pump speed"@));
                assert(entries[a].value->Some_0.rpm == after.pump_speed->Some_0);
            }
        }
        // Pump duty.
        if after.pump_duty is Some {
            if e.value is Some && e.key@ == "Pump duty"@ {
                assert(last_number_under(entries, n, "Pump duty"@));
                assert(entries[n].value->Some_0.pct == after.pump_duty->Some_0);
            } else {
                assert(after.pump_duty == before.pump_duty);
                let a = choose|a: int|
                    last_number_under(prev, a, "Pump duty"@) && (#[trigger] prev[a]).value->Some_0.pct
                        == before.pump_duty->Some_0;
                assert(last_number_under(entries, a, "Pump duty"@));
                assert(entries[a].value->Some_0.pct == after.pump_duty->Some_0);
            }
        }
        lemma_scan_step_fan_reading(before, n, e.key@, e.value, k);
        // Fan speed.
        if after.fans.contains_key(k) && after.fans[k].0 is Some {
            if e.value is Some && names_fan_reading(e.key@, k, "speed"@) {
                assert(last_fan_number(entries, n, k, "speed"@));
                assert(entries[n].value->Some_0.rpm == after.fans[k].0->Some_0);
            } else {
                assert(before.fans.contains_key(k) && before.fans[k].0 == after.fans[k].0);
                let a = choose|a: int|
                    last_fan_number(prev, a, k, "speed"@) && (#[trigger] prev[a]).value->Some_0.rpm
                        == before.fans[k].0->Some_0;
                assert(last_fan_number(entries, a, k, "speed"@));
                assert(entries[a].value->Some_0.rpm == after.fans[k].0->Some_0);
            }
        }
        // Fan duty.
        if after.fans.contains_key(k) && after.fans[k].1 is Some {
            if e.value is Some && names_fan_reading(e.key@, k, "duty"@) {
                assert(last_fan_number(entries, n, k, "duty"@));
                assert(entries[n].value->Some_0.pct == after.fans[k].1->Some_0);
            } else {
                assert(before.fans.contains_key(k) && before.fans[k].1 == after.fans[k].1);
                let a = choose|a: int|
                    last_fan_number(prev, a, k, "duty"@) && (#[trigger] prev[a]).value->Some_0.pct
                        == before.fans[k].1->Some_0;
                assert(last_fan_number(entries, a, k, "duty"@));
                assert(entries[a].value->Some_0.pct == after.fans[k].1->Some_0);
            }
        }
    }
}

/// One scan step on fan `k`'s slot: a numbered key naming `k`'s speed (or
/// duty) sets it to that number; any other entry leaves it as it was.
proof fn lemma_scan_step_fan_reading(
    st: ScanState,
    i: int,
    key: Seq<char>,
    value: Option<ClampedValue>,
    k: u8,
)
    ensures
        ({
            let after = scan_step(st, i, key, value);
            &&& value is Some && names_fan_reading(key, k, "speed"@) ==> after.fans.contains_key(k)
                && after.fans[k].0 == Some(value->Some_0.rpm)
            &&& value is Some && names_fan_reading(key, k, "duty"@) ==> after.fans.contains_key(k)
                && after.fans[k].1 == Some(value->Some_0.pct)
            &&& !(value is Some && names_fan_reading(key, k, "speed"@)) ==> (after.fans.contains_key(k)
                && after.fans[k].0 is Some ==> st.fans.contains_key(k) && st.fans[k].0
                == after.fans[k].0)
            &&& !(value is Some && names_fan_reading(key, k, "duty"@)) ==> (after.fans.contains_key(k)
                && after.fans[k].1 is Some ==> st.fans.contains_key(k) && st.fans[k].1
                == after.fans[k].1)
        }),
{
    lemma_known_keys_are_not_fan_keys(key);
    reveal_strlit("speed");
    reveal_strlit("duty");
    assert("speed"@ != "duty"@) by {
        assert("speed"@[0] != "duty"@[0]);
    }
}

/// `fan`'s speed and duty are the numbers of the last entries of `status`
/// that carry one for its speed and for its duty.
pub open spec fn fan_read_from_last_reports(status: Seq<StatusEntry>, fan: Fan) -> bool {
    &&& exists|a: int|
        last_fan_number(status, a, fan.index, "speed"@) && (#[trigger] status[a]).value->Some_0.rpm
            == fan.speed_rpm
    &&& exists|a: int|
        last_fan_number(status, a, fan.index, "duty"@) && (#[trigger] status[a]).value->Some_0.pct
            == fan.duty_pct
}

/// Decoding reads the first device that reports any status, and takes each
/// reading from that device's last entry that carries a number for it: the
/// pump's speed and duty from the last numbered "Pump speed" and
/// "Pump duty", each fan's speed and duty from the last numbered
/// "Fan k speed" and "Fan k duty".
pub proof fn lemma_decoded_readings_are_last_reports(devices: Seq<DeviceEntry>)
    requires
        decode_outcome(devices) is Ok,
    ensures
        ({
            let (i, description, _, pump, fans) = decode_outcome(devices)->Ok_0;
            let status = devices[i].status@;
            &&& 0 <= i < devices.len()
            &&& status.len() > 0
            &&& forall|j: int| 0 <= j < i ==> (#[trigger] devices[j]).status.len() == 0
            &&& description == devices[i].description@
            &&& exists|a: int|
                last_number_under(status, a, "Pump speed"@) && (#[trigger] status[a]).value->Some_0.rpm
                    == pump.speed_rpm
            &&& exists|a: int|
                last_number_under(status, a, "Pump duty"@) && (#[trigger] status[a]).value->Some_0.pct
                    == pump.duty_pct
            &&& forall|f: int| 0 <= f < fans.len() ==> fan_read_from_last_reports(status, #[trigger] fans[f])
        }),
{
    let i0 = choose|i: int| first_with_status(devices, i);
    let (i, _, _, _, fans_out) = decode_outcome(devices)->Ok_0;
    assert(i == i0);
    let status = devices[i].status@;
    let st = scan(status);
    let fans = complete_fans(st.fans, 256);
    assert(fans_out == fans);
    lemma_complete_fans_sorted(st.fans, 256);
    lemma_scan_readings(status, 0);
    let pump = Pump { speed_rpm: st.pump_speed->Some_0, duty_pct: st.pump_duty->Some_0 };
    assert(decode_outcome(devices)->Ok_0 == (
        i,
        devices[i].description@,
        st.liquid->Some_0,
        pump,
        fans,
    ));
    let a = choose|a: int|
        last_number_under(status, a, "Pump speed"@) && (#[trigger] status[a]).value->Some_0.rpm
            == st.pump_speed->Some_0;
    assert(last_number_under(status, a, "Pump speed"@) && status[a].value->Some_0.rpm
        == pump.speed_rpm);
    let b = choose|b: int|
        last_number_under(status, b, "Pump duty"@) && (#[trigger] status[b]).value->Some_0.pct
            == st.pump_duty->Some_0;
    assert(last_number_under(status, b, "Pump duty"@) && status[b].value->Some_0.pct
        == pump.duty_pct);
    assert forall|f: int| 0 <= f < fans_out.len() implies fan_read_from_last_reports(
        status,
        #[trigger] fans_out[f],
    ) by {
        let k = fans_out[f].index;
        lemma_scan_readings(status, k);
        assert(st.fans.contains_key(k) && st.fans[k] == (
            Some(fans_out[f].speed_rpm),
            Some(fans_out[f].duty_pct),
        ));
        let a = choose|a: int|
            last_fan_number(status, a, k, "speed"@) && (#[trigger] status[a]).value->Some_0.rpm
                == st.fans[k].0->Some_0;
        assert(last_fan_number(status, a, k, "speed"@) && status[a].value->Some_0.rpm
            == fans_out[f].speed_rpm);
        let b = choose|b: int|
            last_fan_number(status, b, k, "duty"@) && (#[trigger] status[b]).value->Some_0.pct
                == st.fans[k].1->Some_0;
        assert(last_fan_number(status, b, k, "duty"@) && status[b].value->Some_0.pct
            == fans_out[f].duty_pct);
    }
}

} // verus!

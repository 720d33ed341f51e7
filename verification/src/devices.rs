//! AIO device classification: a substring catalog and the helpers that
//! filter liquidctl's device enumeration down to known-compatible coolers.

use crate::liquidctl::DetectedDevice;
use crate::text::{ascii_lowercase, chars_of, contains, contains_exec, lower};
use vstd::prelude::*;

verus! {

/// A description names an AIO when its ASCII-lowercased form contains one
/// of the catalog's patterns: "hydro" (Corsair Hydro Pro / Pro XT /
/// Platinum) or "icue h" (Corsair iCUE Elite Capellix / RGB).
pub open spec fn spec_is_aio(description: Seq<char>) -> bool {
    contains(lower(description), "hydro"@) || contains(lower(description), "icue h"@)
}

/// Returns true when `description` contains any catalog pattern,
/// case-insensitively (matching liquidctl's own `--match` semantics).
pub fn is_aio(description: &str) -> (r: bool)
    ensures
        r == spec_is_aio(description@),
{
    let d = ascii_lowercase(description);
    contains_exec(&d, &chars_of("hydro")) || contains_exec(&d, &chars_of("icue h"))
}

/// The AIOs among `devices`, in order.
pub open spec fn aios(devices: Seq<DetectedDevice>) -> Seq<DetectedDevice>
    decreases devices.len(),
{
    if devices.len() == 0 {
        Seq::empty()
    } else {
        let prev = aios(devices.drop_last());
        if spec_is_aio(devices.last().description@) {
            prev.push(devices.last())
        } else {
            prev
        }
    }
}

/// Filter the enumerated device list to known AIOs only, preserving
/// liquidctl's order. The returned references borrow from the input slice.
pub fn filter_aios(devices: &[DetectedDevice]) -> (r: Vec<&DetectedDevice>)
    ensures
        r@.len() == aios(devices@).len(),
        forall|i: int| 0 <= i < r@.len() ==> *r@[i] == aios(devices@)[i],
{
    let mut r: Vec<&DetectedDevice> = Vec::new();
    for i in 0..devices.len()
        invariant
            r@.len() == aios(devices@.take(i as int)).len(),
            forall|j: int| 0 <= j < r@.len() ==> *r@[j] == aios(devices@.take(i as int))[j],
    {
        assert(devices@.take(i + 1).drop_last() =~= devices@.take(i as int));
        if is_aio(devices[i].description.as_str()) {
            r.push(&devices[i]);
        }
    }
    assert(devices@.take(devices@.len() as int) =~= devices@);
    r
}

/// `i` is the position of the first AIO in `devices`.
pub open spec fn first_aio(devices: Seq<DetectedDevice>, i: int) -> bool {
    0 <= i < devices.len() && spec_is_aio(devices[i].description@) && forall|j: int|
        0 <= j < i ==> !spec_is_aio((#[trigger] devices[j]).description@)
}

/// Pick the first AIO from a list, or `None` if no AIO is present.
pub fn auto_select(devices: &[DetectedDevice]) -> (r: Option<&DetectedDevice>)
    ensures
        r matches Some(d) ==> exists|i: int| first_aio(devices@, i) && *d == devices@[i],
        r is None ==> forall|i: int| 0 <= i < devices@.len() ==> !spec_is_aio(
            (#[trigger] devices@[i]).description@,
        ),
{
    for i in 0..devices.len()
        invariant
            forall|j: int| 0 <= j < i ==> !spec_is_aio((#[trigger] devices@[j]).description@),
    {
        if is_aio(devices[i].description.as_str()) {
            assert(first_aio(devices@, i as int));
            return Some(&devices[i]);
        }
    }
    None
}

} // verus!

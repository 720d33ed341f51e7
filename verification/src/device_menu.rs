//! The device selector's entries: an `Auto (...)` row, each connected AIO
//! that is not the automatic pick, and a synthetic `(disconnected)` row for
//! a saved choice that is no longer present. Each entry carries the value
//! that selecting it commits.

use crate::devices::{aios, auto_select, filter_aios, first_aio};
use crate::liquidctl::DetectedDevice;
use crate::text::str_eq;
use vstd::prelude::*;
use vstd::string::StringExecFns;

verus! {

/// A menu entry as mathematical values: its label and its commit value.
pub open spec fn entry_view(e: (String, Option<String>)) -> (Seq<char>, Option<Seq<char>>) {
    (
        e.0@,
        match e.1 {
            Some(v) => Some(v@),
            None => None,
        },
    )
}

/// The entries as mathematical values.
pub open spec fn entries_view(entries: Seq<(String, Option<String>)>) -> Seq<
    (Seq<char>, Option<Seq<char>>),
> {
    Seq::new(entries.len(), |i: int| entry_view(entries[i]))
}

/// The description of the automatic pick, if any device is an AIO.
pub open spec fn auto_pick(devices: Seq<DetectedDevice>) -> Option<Seq<char>> {
    if exists|i: int| first_aio(devices, i) {
        Some(devices[choose|i: int| first_aio(devices, i)].description@)
    } else {
        None
    }
}

/// The label of the `Auto` entry.
pub open spec fn auto_label(devices: Seq<DetectedDevice>) -> Seq<char> {
    match auto_pick(devices) {
        Some(d) => "Auto ("@ + d + ")"@,
        None => "Auto (no AIO detected)"@,
    }
}

/// One explicit row per AIO whose description differs from the automatic
/// pick's, in order.
pub open spec fn explicit_rows(aio_list: Seq<DetectedDevice>, auto: Option<Seq<char>>) -> Seq<
    (Seq<char>, Option<Seq<char>>),
>
    decreases aio_list.len(),
{
    if aio_list.len() == 0 {
        Seq::empty()
    } else {
        let prev = explicit_rows(aio_list.drop_last(), auto);
        let d = aio_list.last().description@;
        if auto == Some(d) {
            prev
        } else {
            prev.push((d, Some(d)))
        }
    }
}

/// Some listed device (AIO or not) has exactly this description.
pub open spec fn is_listed(devices: Seq<DetectedDevice>, description: Seq<char>) -> bool {
    exists|j: int| 0 <= j < devices.len() && (#[trigger] devices[j]).description@ == description
}

/// The full entry list for a device list and an optional saved choice.
pub open spec fn spec_dropdown_entries(
    devices: Seq<DetectedDevice>,
    device_match: Option<Seq<char>>,
) -> Seq<(Seq<char>, Option<Seq<char>>)> {
    let head = seq![(auto_label(devices), None::<Seq<char>>)];
    let rows = explicit_rows(aios(devices), auto_pick(devices));
    let tail = match device_match {
        Some(saved) => if is_listed(devices, saved) {
            Seq::empty()
        } else {
            seq![(saved + " (disconnected)"@, Some(saved))]
        },
        None => Seq::empty(),
    };
    head + rows + tail
}

proof fn lemma_first_aio_unique(devices: Seq<DetectedDevice>, i: int, j: int)
    requires
        first_aio(devices, i),
        first_aio(devices, j),
    ensures
        i == j,
{
    if i < j {
        assert(!crate::devices::spec_is_aio(devices[i].description@));
    }
    if j < i {
        assert(!crate::devices::spec_is_aio(devices[j].description@));
    }
}

/// The automatic pick's description, as `auto_select` finds it.
fn auto_description(devices: &[DetectedDevice]) -> (r: Option<&str>)
    ensures
        r matches Some(d) ==> auto_pick(devices@) == Some(d@),
        r is None ==> auto_pick(devices@) is None,
{
    match auto_select(devices) {
        Some(d) => {
            proof {
                let i = choose|i: int| first_aio(devices@, i) && *d == devices@[i];
                let k = choose|k: int| first_aio(devices@, k);
                lemma_first_aio_unique(devices@, i, k);
            }
            Some(d.description.as_str())
        },
        None => {
            proof {
                assert forall|i: int| !first_aio(devices@, i) by {
                    if first_aio(devices@, i) {
                        assert(!crate::devices::spec_is_aio(devices@[i].description@));
                    }
                }
            }
            None
        },
    }
}

fn owned(s: &str) -> (r: String)
    ensures
        r@ == s@,
{
    s.to_owned()
}

/// Build the dropdown entries as `(display label, commit value)` pairs.
/// Index 0 is `Auto (...)` whose commit value is `None`. Then each
/// connected AIO that isn't the auto-pick (the auto entry already names
/// it). Finally, an optional synthetic `<saved> (disconnected)` row when
/// the saved choice is absent from the full enumeration — a connected
/// non-AIO saved device is not marked disconnected.
pub fn dropdown_entries(detected_devices: &[DetectedDevice], device_match: Option<&str>) -> (r: Vec<
    (String, Option<String>),
>)
    ensures
        entries_view(r@) == spec_dropdown_entries(
            detected_devices@,
            match device_match {
                Some(m) => Some(m@),
                None => None,
            },
        ),
{
    let aio_list = filter_aios(detected_devices);
    let auto_desc = auto_description(detected_devices);
    let auto_label_s = match auto_desc {
        Some(d) => {
            let mut l = owned("Auto (");
            l.append(d);
            l.append(")");
            l
        },
        None => owned("Auto (no AIO detected)"),
    };
    let ghost auto_spec = auto_pick(detected_devices@);
    let ghost aios_spec = aios(detected_devices@);
    let mut entries: Vec<(String, Option<String>)> = Vec::new();
    entries.push((auto_label_s, None));
    let ghost head = seq![(auto_label(detected_devices@), None::<Seq<char>>)];
    assert(entries_view(entries@) =~= head + explicit_rows(aios_spec.take(0), auto_spec));
    for i in 0..aio_list.len()
        invariant
            aio_list@.len() == aios_spec.len(),
            forall|j: int| 0 <= j < aio_list@.len() ==> *aio_list@[j] == aios_spec[j],
            auto_desc matches Some(d) ==> auto_spec == Some(d@),
            auto_desc is None ==> auto_spec is None,
            entries_view(entries@) == head + explicit_rows(aios_spec.take(i as int), auto_spec),
    {
        let d = aio_list[i];
        let same = match auto_desc {
            Some(a) => str_eq(d.description.as_str(), a),
            None => false,
        };
        assert(aios_spec.take(i + 1).drop_last() =~= aios_spec.take(i as int));
        assert(aios_spec.take(i + 1).last() == *d);
        if !same {
            let ghost before = entries@;
            entries.push((d.description.clone(), Some(d.description.clone())));
            assert(entries_view(entries@) =~= entries_view(before).push(
                (d.description@, Some(d.description@)),
            ));
        }
        assert(entries_view(entries@) =~= head + explicit_rows(aios_spec.take(i + 1), auto_spec));
    }
    assert(aios_spec.take(aio_list.len() as int) =~= aios_spec);
    if let Some(saved) = device_match {
        let mut listed = false;
        for j in 0..detected_devices.len()
            invariant
                listed == exists|k: int|
                    0 <= k < j && (#[trigger] detected_devices@[k]).description@ == saved@,
        {
            if str_eq(detected_devices[j].description.as_str(), saved) {
                listed = true;
            }
        }
        if !listed {
            let ghost before = entries@;
            let mut label = owned(saved);
            label.append(" (disconnected)");
            entries.push((label, Some(owned(saved))));
            assert(entries_view(entries@) =~= entries_view(before).push(
                (saved@ + " (disconnected)"@, Some(saved@)),
            ));
        }
    }
    entries
}

/// The display labels of `dropdown_entries`, in order.
pub fn device_dropdown_items(detected_devices: &[DetectedDevice], device_match: Option<&str>) -> (r:
    Vec<String>)
    ensures
        r@.len() == spec_dropdown_entries(
            detected_devices@,
            match device_match {
                Some(m) => Some(m@),
                None => None,
            },
        ).len(),
        forall|i: int|
            0 <= i < r@.len() ==> (#[trigger] r@[i])@ == spec_dropdown_entries(
                detected_devices@,
                match device_match {
                    Some(m) => Some(m@),
                    None => None,
                },
            )[i].0,
{
    let entries = dropdown_entries(detected_devices, device_match);
    let mut labels: Vec<String> = Vec::new();
    for i in 0..entries.len()
        invariant
            labels@.len() == i,
            forall|j: int| 0 <= j < i ==> (#[trigger] labels@[j])@ == entries@[j].0@,
    {
        labels.push(entries[i].0.clone());
    }
    proof {
        assert forall|i: int| 0 <= i < labels@.len() implies (#[trigger] labels@[i])@
            == entries_view(entries@)[i].0 by {}
    }
    labels
}

/// `j` is the first entry whose commit value is `saved`.
pub open spec fn first_commit_of(
    entries: Seq<(Seq<char>, Option<Seq<char>>)>,
    saved: Seq<char>,
    j: int,
) -> bool {
    0 <= j < entries.len() && entries[j].1 == Some(saved) && forall|k: int|
        0 <= k < j ==> (#[trigger] entries[k]).1 != Some(saved)
}

/// Resolve the currently-selected dropdown index. `None` (saved choice
/// is unset) maps to index 0 (Auto). A saved choice that matches the
/// auto-pick also maps to Auto, since the explicit row is hidden. Otherwise
/// the saved choice maps to the first row whose commit value it is, or to
/// nothing when no row carries it.
pub fn device_dropdown_selected(
    detected_devices: &[DetectedDevice],
    device_match: Option<&str>,
    entries: &[(String, Option<String>)],
) -> (r: Option<usize>)
    ensures
        device_match is None ==> r == Some(0usize),
        device_match matches Some(saved) ==> {
            if auto_pick(detected_devices@) == Some(saved@) {
                r == Some(0usize)
            } else {
                &&& r matches Some(j) ==> first_commit_of(entries_view(entries@), saved@, j as int)
                &&& r is None ==> forall|k: int|
                    0 <= k < entries@.len() ==> (#[trigger] entries_view(entries@)[k]).1 != Some(
                        saved@,
                    )
            }
        },
{
    match device_match {
        None => Some(0),
        Some(saved) => {
            let auto_desc = auto_description(detected_devices);
            if let Some(a) = auto_desc {
                if str_eq(a, saved) {
                    return Some(0);
                }
            }
            for j in 0..entries.len()
                invariant
                    device_match == Some(saved),
                    auto_pick(detected_devices@) != Some(saved@),
                    forall|k: int|
                        0 <= k < j ==> (#[trigger] entries_view(entries@)[k]).1 != Some(saved@),
            {
                let hit = match &entries[j].1 {
                    Some(v) => str_eq(v.as_str(), saved),
                    None => false,
                };
                if hit {
                    return Some(j);
                }
            }
            None
        },
    }
}

} // verus!

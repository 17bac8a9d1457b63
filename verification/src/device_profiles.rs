//! Axis-profile helpers over the device table: inverting a logical-to-raw
//! axis map and taking owned snapshots of the profile table.

use vstd::prelude::*;
use crate::device_database::DeviceDatabase;
use crate::text::clone_string_pairs;

verus! {

/// Converts a logical-name-to-raw-index axis map into a raw-index-to-name
/// map, entry for entry.
pub fn invert_profile(profile: &Vec<(String, u32)>) -> (r: Vec<(u32, String)>)
    ensures
        r@.len() == profile@.len(),
        forall|i: int| 0 <= i < r@.len() ==> (#[trigger] r@[i]).0 == profile@[i].1 && r@[i].1@
            == profile@[i].0@,
{
    let mut r: Vec<(u32, String)> = Vec::new();
    let n = profile.len();
    let mut i: usize = 0;
    while i < n
        invariant
            n == profile@.len(),
            i <= n,
            r@.len() == i,
            forall|k: int| 0 <= k < i ==> (#[trigger] r@[k]).0 == profile@[k].1 && r@[k].1@
                == profile@[k].0@,
        decreases n - i,
    {
        let name = profile[i].0.clone();
        r.push((profile[i].1, name));
        i = i + 1;
    }
    r
}

/// An owned copy of every named axis profile in the table.
pub fn all_profiles(db: &DeviceDatabase) -> (r: Vec<(String, Vec<(String, String)>)>)
    ensures
        r@.len() == db.axis_profiles@.len(),
        forall|i: int| 0 <= i < r@.len() ==> (#[trigger] r@[i]).0@ == db.axis_profiles@[i].0@
            && r@[i].1@ == db.axis_profiles@[i].1@,
{
    let mut r: Vec<(String, Vec<(String, String)>)> = Vec::new();
    let n = db.axis_profiles.len();
    let mut i: usize = 0;
    while i < n
        invariant
            n == db.axis_profiles@.len(),
            i <= n,
            r@.len() == i,
            forall|k: int| 0 <= k < i ==> (#[trigger] r@[k]).0@ == db.axis_profiles@[k].0@
                && r@[k].1@ == db.axis_profiles@[k].1@,
        decreases n - i,
    {
        let name = db.axis_profiles[i].0.clone();
        let axes = clone_string_pairs(&db.axis_profiles[i].1);
        r.push((name, axes));
        i = i + 1;
    }
    r
}

/// An owned snapshot of the profile table, for transport across process
/// boundaries.
pub fn profiles_snapshot(db: &DeviceDatabase) -> (r: Vec<(String, Vec<(String, String)>)>)
    ensures
        r@.len() == db.axis_profiles@.len(),
        forall|i: int| 0 <= i < r@.len() ==> (#[trigger] r@[i]).0@ == db.axis_profiles@[i].0@
            && r@[i].1@ == db.axis_profiles@[i].1@,
{
    all_profiles(db)
}

} // verus!

verus! {

/// Whether a character survives name normalisation: ASCII letters, digits
/// and whitespace.
pub open spec fn spec_name_char(c: char) -> bool {
    ('a' <= c && c <= 'z') || ('0' <= c && c <= '9') || crate::text::is_space_char(c)
}

/// A device name normalised for matching: ASCII-lowercased, keeping only
/// letters, digits and whitespace.
pub open spec fn spec_normalize_name(s: Seq<char>) -> Seq<char> {
    crate::text::lower_seq(s).filter(|c: char| spec_name_char(c))
}

/// Normalises a device or profile name for matching.
pub fn normalize_name(value: &str) -> (r: String)
    ensures
        r@ == spec_normalize_name(value@),
{
    let lowered = crate::text::lower_string(value);
    let low = lowered.as_str();
    let len = low.unicode_len();
    let mut r = String::new();
    let mut i: usize = 0;
    proof {
        reveal(Seq::filter);
        assert(low@.take(0).filter(|c: char| spec_name_char(c)) =~= Seq::<char>::empty());
    }
    while i < len
        invariant
            len == low@.len(),
            low@ == crate::text::lower_seq(value@),
            i <= len,
            r@ == low@.take(i as int).filter(|c: char| spec_name_char(c)),
        decreases len - i,
    {
        let c = low.get_char(i);
        let keep = ('a' <= c && c <= 'z') || ('0' <= c && c <= '9') || c == ' ' || c == '\t'
            || c == '\n' || c == '\r';
        proof {
            reveal(Seq::filter);
            assert(low@.take(i as int + 1).drop_last() =~= low@.take(i as int));
            assert(low@.take(i as int + 1).last() == low@[i as int]);
        }
        if keep {
            crate::text::push_char(&mut r, c);
        }
        i = i + 1;
    }
    proof {
        assert(low@.take(len as int) =~= low@);
    }
    r
}

} // verus!

verus! {

/// The first profile whose normalised name equals the normalised device
/// name.
pub open spec fn spec_find_exact(
    profiles: Seq<(String, Vec<(String, String)>)>,
    dev: Seq<char>,
) -> Option<(String, Vec<(String, String)>)>
    decreases profiles.len(),
{
    if profiles.len() == 0 {
        None
    } else if spec_normalize_name(profiles[0].0@) == dev {
        Some(profiles[0])
    } else {
        spec_find_exact(profiles.drop_first(), dev)
    }
}

/// The first profile whose normalised name occurs inside the normalised
/// device name.
pub open spec fn spec_find_substring(
    profiles: Seq<(String, Vec<(String, String)>)>,
    dev: Seq<char>,
) -> Option<(String, Vec<(String, String)>)>
    decreases profiles.len(),
{
    if profiles.len() == 0 {
        None
    } else if crate::text::spec_contains(dev, spec_normalize_name(profiles[0].0@)) {
        Some(profiles[0])
    } else {
        spec_find_substring(profiles.drop_first(), dev)
    }
}

/// The first profile literally named `default`.
pub open spec fn spec_find_default(profiles: Seq<(String, Vec<(String, String)>)>) -> Option<
    (String, Vec<(String, String)>),
>
    decreases profiles.len(),
{
    if profiles.len() == 0 {
        None
    } else if profiles[0].0@ == "default"@ {
        Some(profiles[0])
    } else {
        spec_find_default(profiles.drop_first())
    }
}

/// The profile chosen for a device name: an exact normalised match first,
/// then a profile whose name occurs inside the device name, then the
/// `default` profile, which the table must hold.
pub open spec fn spec_profile_for_device(
    profiles: Seq<(String, Vec<(String, String)>)>,
    device_name: Seq<char>,
) -> Option<(String, Vec<(String, String)>)> {
    let dev = spec_normalize_name(device_name);
    match spec_find_exact(profiles, dev) {
        Some(p) => Some(p),
        None => match spec_find_substring(profiles, dev) {
            Some(p) => Some(p),
            None => spec_find_default(profiles),
        },
    }
}

/// Picks the best matching axis profile for a device name.
pub fn profile_for_device(db: &DeviceDatabase, device_name: &str) -> (r: (String, Vec<(
    String,
    String,
)>))
    requires
        spec_find_default(db.axis_profiles@) is Some,
    ensures
        spec_profile_for_device(db.axis_profiles@, device_name@) matches Some(p) && p.0@ == r.0@
            && p.1@ == r.1@,
{
    let dev = normalize_name(device_name);
    let n = db.axis_profiles.len();
    let ghost profiles = db.axis_profiles@;
    let mut i: usize = 0;
    proof {
        assert(profiles.skip(0) =~= profiles);
    }
    while i < n
        invariant
            n == profiles.len(),
            profiles == db.axis_profiles@,
            i <= n,
            dev@ == spec_normalize_name(device_name@),
            spec_find_exact(profiles, dev@) == spec_find_exact(profiles.skip(i as int), dev@),
        decreases n - i,
    {
        proof {
            assert(profiles.skip(i as int)[0] == profiles[i as int]);
            assert(profiles.skip(i as int).drop_first() =~= profiles.skip(i as int + 1));
        }
        let norm = normalize_name(db.axis_profiles[i].0.as_str());
        if crate::text::str_eq(norm.as_str(), dev.as_str()) {
            let name = db.axis_profiles[i].0.clone();
            let axes = crate::text::clone_string_pairs(&db.axis_profiles[i].1);
            return (name, axes);
        }
        i = i + 1;
    }
    proof {
        assert(profiles.skip(n as int) =~= Seq::<(String, Vec<(String, String)>)>::empty());
    }
    let mut i: usize = 0;
    proof {
        assert(profiles.skip(0) =~= profiles);
    }
    while i < n
        invariant
            n == profiles.len(),
            profiles == db.axis_profiles@,
            i <= n,
            dev@ == spec_normalize_name(device_name@),
            spec_find_exact(profiles, dev@) is None,
            spec_find_substring(profiles, dev@) == spec_find_substring(
                profiles.skip(i as int),
                dev@,
            ),
        decreases n - i,
    {
        proof {
            assert(profiles.skip(i as int)[0] == profiles[i as int]);
            assert(profiles.skip(i as int).drop_first() =~= profiles.skip(i as int + 1));
        }
        let norm = normalize_name(db.axis_profiles[i].0.as_str());
        if crate::text::contains_str(dev.as_str(), norm.as_str()) {
            let name = db.axis_profiles[i].0.clone();
            let axes = crate::text::clone_string_pairs(&db.axis_profiles[i].1);
            return (name, axes);
        }
        i = i + 1;
    }
    proof {
        assert(profiles.skip(n as int) =~= Seq::<(String, Vec<(String, String)>)>::empty());
    }
    let mut i: usize = 0;
    proof {
        assert(profiles.skip(0) =~= profiles);
    }
    while i < n
        invariant
            n == profiles.len(),
            profiles == db.axis_profiles@,
            i <= n,
            spec_find_default(profiles) is Some,
            spec_find_exact(profiles, spec_normalize_name(device_name@)) is None,
            spec_find_substring(profiles, spec_normalize_name(device_name@)) is None,
            dev@ == spec_normalize_name(device_name@),
            spec_find_default(profiles) == spec_find_default(profiles.skip(i as int)),
        decreases n - i,
    {
        proof {
            assert(profiles.skip(i as int)[0] == profiles[i as int]);
            assert(profiles.skip(i as int).drop_first() =~= profiles.skip(i as int + 1));
        }
        if crate::text::str_eq(db.axis_profiles[i].0.as_str(), "default") {
            let name = db.axis_profiles[i].0.clone();
            let axes = crate::text::clone_string_pairs(&db.axis_profiles[i].1);
            return (name, axes);
        }
        i = i + 1;
    }
    proof {
        assert(profiles.skip(n as int) =~= Seq::<(String, Vec<(String, String)>)>::empty());
        assert(false);
    }
    (String::new(), Vec::new())
}

} // verus!

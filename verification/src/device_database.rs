//! The static device table: vendor/product identifiers mapped to friendly
//! names and axis-profile names, plus the per-profile axis maps.  The table
//! is read-only after construction; callers hand in the decoded rows and the
//! constructor validates the hexadecimal identifier strings.

use vstd::prelude::*;
use crate::text::{
    all_hex_digits, clone_string_pairs, parse_hex_u32, spec_hex_value, str_eq,
};

verus! {

/// One row of the device table, as it appears in the backing store: the
/// vendor and product identifiers are hexadecimal strings, usually with a
/// `0x` prefix.
pub struct DeviceEntry {
    pub vendor_id: String,
    pub product_id: String,
    pub name: String,
    pub device_type: String,
    pub axis_profile: String,
}

/// Field-by-field copy of a device entry.
pub fn clone_entry(e: &DeviceEntry) -> (r: DeviceEntry)
    ensures
        r == *e,
{
    DeviceEntry {
        vendor_id: e.vendor_id.clone(),
        product_id: e.product_id.clone(),
        name: e.name.clone(),
        device_type: e.device_type.clone(),
        axis_profile: e.axis_profile.clone(),
    }
}

/// `s` with every leading `0x` removed.
pub open spec fn spec_strip_0x(s: Seq<char>) -> Seq<char>
    decreases s.len(),
{
    if s.len() >= 2 && s[0] == '0' && s[1] == 'x' {
        spec_strip_0x(s.skip(2))
    } else {
        s
    }
}

/// Whether a hexadecimal identifier string (optionally `0x`-prefixed) is
/// well-formed and fits a `u32`.
pub open spec fn spec_device_id_ok(s: Seq<char>) -> bool {
    let t = spec_strip_0x(s);
    t.len() > 0 && all_hex_digits(t) && spec_hex_value(t) <= u32::MAX
}

/// The numeric value of a well-formed identifier string.
pub open spec fn spec_device_id(s: Seq<char>) -> nat {
    spec_hex_value(spec_strip_0x(s))
}

/// Parses a `0x`-prefixed (or bare) hexadecimal identifier.
pub fn parse_device_id(s: &str) -> (r: Option<u32>)
    ensures
        match r {
            Some(v) => spec_device_id_ok(s@) && v as nat == spec_device_id(s@),
            None => !spec_device_id_ok(s@),
        },
{
    let mut t: &str = s;
    let mut len = t.unicode_len();
    while len >= 2 && t.get_char(0) == '0' && t.get_char(1) == 'x'
        invariant
            len == t@.len(),
            spec_strip_0x(t@) == spec_strip_0x(s@),
        decreases len,
    {
        t = t.substring_char(2, len);
        len = len - 2;
    }
    assert(spec_strip_0x(t@) == t@);
    parse_hex_u32(t)
}

/// The decoded device table: rows keyed by their numeric vendor/product
/// identifiers, and the named axis profiles (each a list of axis-index to
/// axis-name pairs, kept as they appear in the backing store).
pub struct DeviceDatabase {
    pub devices: Vec<(u32, u32, DeviceEntry)>,
    pub axis_profiles: Vec<(String, Vec<(String, String)>)>,
}

/// Whether every identifier string of `rows` is well-formed.
pub open spec fn spec_all_ids_ok(rows: Seq<DeviceEntry>) -> bool {
    forall|i: int| 0 <= i < rows.len() ==> spec_device_id_ok((#[trigger] rows[i]).vendor_id@)
        && spec_device_id_ok(rows[i].product_id@)
}

/// First row of `devices` keyed by the given identifiers, if any.
pub open spec fn spec_lookup(
    devices: Seq<(u32, u32, DeviceEntry)>,
    vendor_id: u32,
    product_id: u32,
) -> Option<DeviceEntry>
    decreases devices.len(),
{
    if devices.len() == 0 {
        None
    } else if devices[0].0 == vendor_id && devices[0].1 == product_id {
        Some(devices[0].2)
    } else {
        spec_lookup(devices.drop_first(), vendor_id, product_id)
    }
}

impl DeviceDatabase {
    /// Builds the table from decoded rows, parsing each row's hexadecimal
    /// identifiers.  Fails on the first row whose vendor or product
    /// identifier does not parse, naming the offending field.
    pub fn init(
        rows: Vec<DeviceEntry>,
        axis_profiles: Vec<(String, Vec<(String, String)>)>,
    ) -> (r: Result<DeviceDatabase, String>)
        ensures
            match r {
                Ok(db) => spec_all_ids_ok(rows@) && db.axis_profiles == axis_profiles
                    && db.devices@.len() == rows@.len() && forall|i: int|
                    0 <= i < rows@.len() ==> #[trigger] db.devices@[i] == (
                        (spec_device_id(rows@[i].vendor_id@) as u32),
                        (spec_device_id(rows@[i].product_id@) as u32),
                        rows@[i],
                    ),
                Err(m) => !spec_all_ids_ok(rows@) && (m@ == "Invalid vendor_id format"@ || m@
                    == "Invalid product_id format"@),
            },
    {
        let mut devices: Vec<(u32, u32, DeviceEntry)> = Vec::new();
        let n = rows.len();
        let mut i: usize = 0;
        while i < n
            invariant
                n == rows@.len(),
                i <= n,
                devices@.len() == i,
                forall|k: int| 0 <= k < i ==> spec_device_id_ok(
                    (#[trigger] rows@[k]).vendor_id@,
                ) && spec_device_id_ok(rows@[k].product_id@),
                forall|k: int| 0 <= k < i ==> #[trigger] devices@[k] == (
                    (spec_device_id(rows@[k].vendor_id@) as u32),
                    (spec_device_id(rows@[k].product_id@) as u32),
                    rows@[k],
                ),
            decreases n - i,
        {
            let vid = match parse_device_id(rows[i].vendor_id.as_str()) {
                Some(v) => v,
                None => {
                    assert(!spec_device_id_ok(rows@[i as int].vendor_id@));
                    assert(!spec_all_ids_ok(rows@));
                    return Err(String::from_str("Invalid vendor_id format"));
                },
            };
            let pid = match parse_device_id(rows[i].product_id.as_str()) {
                Some(v) => v,
                None => {
                    assert(!spec_device_id_ok(rows@[i as int].product_id@));
                    assert(!spec_all_ids_ok(rows@));
                    return Err(String::from_str("Invalid product_id format"));
                },
            };
            let entry = clone_entry(&rows[i]);
            devices.push((vid, pid, entry));
            i = i + 1;
        }
        Ok(DeviceDatabase { devices, axis_profiles })
    }

    /// Looks a device up by its numeric vendor and product identifiers; the
    /// first matching row wins.
    pub fn lookup_device(&self, vendor_id: u32, product_id: u32) -> (r: Option<DeviceEntry>)
        ensures
            r == spec_lookup(self.devices@, vendor_id, product_id),
    {
        let n = self.devices.len();
        let mut i: usize = 0;
        assert(self.devices@.skip(0) =~= self.devices@);
        while i < n
            invariant
                n == self.devices@.len(),
                i <= n,
                spec_lookup(self.devices@, vendor_id, product_id) == spec_lookup(
                    self.devices@.skip(i as int),
                    vendor_id,
                    product_id,
                ),
            decreases n - i,
        {
            assert(self.devices@.skip(i as int)[0] == self.devices@[i as int]);
            assert(self.devices@.skip(i as int).drop_first() =~= self.devices@.skip(i as int + 1));
            if self.devices[i].0 == vendor_id && self.devices[i].1 == product_id {
                return Some(clone_entry(&self.devices[i].2));
            }
            i = i + 1;
        }
        assert(self.devices@.skip(n as int) =~= Seq::empty());
        None
    }

    /// Returns a copy of the named axis profile, if the table has one; the
    /// first profile of that name wins.
    pub fn get_axis_profile(&self, profile_name: &str) -> (r: Option<Vec<(String, String)>>)
        ensures
            match r {
                Some(p) => exists|i: int| 0 <= i < self.axis_profiles@.len()
                    && (#[trigger] self.axis_profiles@[i]).0@ == profile_name@
                    && self.axis_profiles@[i].1@ == p@ && forall|j: int|
                    0 <= j < i ==> (#[trigger] self.axis_profiles@[j]).0@ != profile_name@,
                None => forall|i: int| 0 <= i < self.axis_profiles@.len() ==> (
                #[trigger] self.axis_profiles@[i]).0@ != profile_name@,
            },
    {
        let n = self.axis_profiles.len();
        let mut i: usize = 0;
        while i < n
            invariant
                n == self.axis_profiles@.len(),
                i <= n,
                forall|j: int| 0 <= j < i ==> (#[trigger] self.axis_profiles@[j]).0@
                    != profile_name@,
            decreases n - i,
        {
            if str_eq(self.axis_profiles[i].0.as_str(), profile_name) {
                return Some(clone_string_pairs(&self.axis_profiles[i].1));
            }
            i = i + 1;
        }
        None
    }
}

} // verus!



verus! {

/// Whether a vendor identifier lies above the floor (every identifier
/// does when there is no floor yet).
pub open spec fn spec_above(v: u32, floor: Option<u32>) -> bool {
    match floor {
        Some(f) => v > f,
        None => true,
    }
}

/// The smallest vendor identifier above the floor, if any row has one.
pub open spec fn spec_min_above(
    devices: Seq<(u32, u32, DeviceEntry)>,
    floor: Option<u32>,
) -> Option<u32>
    decreases devices.len(),
{
    if devices.len() == 0 {
        None
    } else {
        let v = devices[0].0;
        let rest = spec_min_above(devices.drop_first(), floor);
        if spec_above(v, floor) {
            match rest {
                Some(m) => if v < m {
                    Some(v)
                } else {
                    Some(m)
                },
                None => Some(v),
            }
        } else {
            rest
        }
    }
}

/// A found minimum lies above the floor.
proof fn lemma_min_above_above(devices: Seq<(u32, u32, DeviceEntry)>, floor: Option<u32>)
    ensures
        spec_min_above(devices, floor) matches Some(m) ==> spec_above(m, floor),
    decreases devices.len(),
{
    if devices.len() > 0 {
        lemma_min_above_above(devices.drop_first(), floor);
    }
}

/// The vendor identifiers above the floor, in ascending order, each once:
/// the minimum above the floor, then those above it.
pub open spec fn spec_vendor_ids_above(
    devices: Seq<(u32, u32, DeviceEntry)>,
    floor: Option<u32>,
) -> Seq<u32>
    decreases (match floor {
        Some(f) => (u32::MAX - f) as int,
        None => u32::MAX as int + 1,
    })
    via spec_vendor_ids_above_decreases
{
    match spec_min_above(devices, floor) {
        Some(m) => seq![m] + spec_vendor_ids_above(devices, Some(m)),
        None => Seq::empty(),
    }
}

#[via_fn]
proof fn spec_vendor_ids_above_decreases(
    devices: Seq<(u32, u32, DeviceEntry)>,
    floor: Option<u32>,
) {
    lemma_min_above_above(devices, floor);
}

/// The smallest entry above the floor, by scanning the rows.
fn next_vendor_above(devices: &Vec<(u32, u32, DeviceEntry)>, floor: Option<u32>) -> (r: Option<
    u32,
>)
    ensures
        r == spec_min_above(devices@, floor),
{
    let n = devices.len();
    let mut best: Option<u32> = None;
    let mut i: usize = n;
    proof {
        assert(devices@.skip(n as int) =~= Seq::<(u32, u32, DeviceEntry)>::empty());
    }
    while i > 0
        invariant
            n == devices@.len(),
            i <= n,
            best == spec_min_above(devices@.skip(i as int), floor),
        decreases i,
    {
        proof {
            assert(devices@.skip(i as int - 1)[0] == devices@[i as int - 1]);
            assert(devices@.skip(i as int - 1).drop_first() =~= devices@.skip(i as int));
        }
        let v = devices[i - 1].0;
        let above = match floor {
            Some(f) => v > f,
            None => true,
        };
        if above {
            best = match best {
                Some(b) => if v < b {
                    Some(v)
                } else {
                    Some(b)
                },
                None => Some(v),
            };
        }
        i = i - 1;
    }
    proof {
        assert(devices@.skip(0) =~= devices@);
    }
    best
}

impl DeviceDatabase {
    /// Every vendor identifier in the table, each once, in ascending
    /// order.
    pub fn get_vendor_ids(&self) -> (r: Vec<u32>)
        ensures
            r@ == spec_vendor_ids_above(self.devices@, None),
    {
        let mut r: Vec<u32> = Vec::new();
        let mut last: Option<u32> = None;
        loop
            invariant
                spec_vendor_ids_above(self.devices@, None) == r@ + spec_vendor_ids_above(
                    self.devices@,
                    last,
                ),
            decreases (match last {
                Some(l) => (u32::MAX - l) as int,
                None => u32::MAX as int + 1,
            }),
        {
            match next_vendor_above(&self.devices, last) {
                Some(m) => {
                    proof {
                        lemma_min_above_above(self.devices@, last);
                        assert(r@ + (seq![m] + spec_vendor_ids_above(self.devices@, Some(m)))
                            =~= r@.push(m) + spec_vendor_ids_above(self.devices@, Some(m)));
                    }
                    r.push(m);
                    last = Some(m);
                },
                None => {
                    proof {
                        assert(spec_vendor_ids_above(self.devices@, last)
                            =~= Seq::<u32>::empty());
                        assert(r@ + Seq::<u32>::empty() =~= r@);
                    }
                    return r;
                },
            }
        }
    }
}

} // verus!

verus! {

/// Whether a profile name lies strictly above the floor name (every name
/// does when there is no floor yet).
pub open spec fn spec_name_above(v: Seq<char>, floor: Option<Seq<char>>) -> bool {
    match floor {
        Some(f) => crate::text::spec_str_lt(f, v),
        None => true,
    }
}

/// The lexicographically smallest profile name above the floor, if any.
pub open spec fn spec_min_name_above(
    profiles: Seq<(String, Vec<(String, String)>)>,
    floor: Option<Seq<char>>,
) -> Option<Seq<char>>
    decreases profiles.len(),
{
    if profiles.len() == 0 {
        None
    } else {
        let v = profiles[0].0@;
        let rest = spec_min_name_above(profiles.drop_first(), floor);
        if spec_name_above(v, floor) {
            match rest {
                Some(m) => if crate::text::spec_str_lt(v, m) {
                    Some(v)
                } else {
                    Some(m)
                },
                None => Some(v),
            }
        } else {
            rest
        }
    }
}

/// A found minimum lies above the floor and names some profile; no
/// minimum means no name lies above the floor.
proof fn lemma_min_name_above(
    profiles: Seq<(String, Vec<(String, String)>)>,
    floor: Option<Seq<char>>,
)
    ensures
        spec_min_name_above(profiles, floor) matches Some(m) ==> spec_name_above(m, floor) && (
        exists|k: int| 0 <= k < profiles.len() && (#[trigger] profiles[k]).0@ == m),
        spec_min_name_above(profiles, floor) is None ==> forall|k: int|
            0 <= k < profiles.len() ==> !spec_name_above((#[trigger] profiles[k]).0@, floor),
    decreases profiles.len(),
{
    if profiles.len() > 0 {
        lemma_min_name_above(profiles.drop_first(), floor);
        if spec_min_name_above(profiles, floor) is Some {
            let m = spec_min_name_above(profiles, floor)->0;
            if m == profiles[0].0@ {
                assert(profiles[0].0@ == m);
            } else {
                let w = choose|k: int|
                    0 <= k < profiles.drop_first().len() && (#[trigger] profiles.drop_first()[
                        k
                    ]).0@ == m;
                assert(profiles[w + 1].0@ == m);
            }
        } else {
            assert forall|k: int| 0 <= k < profiles.len() implies !spec_name_above(
                (#[trigger] profiles[k]).0@,
                floor,
            ) by {
                if k > 0 {
                    assert(profiles.drop_first()[k - 1].0@ == profiles[k].0@);
                }
            }
        }
    }
}

/// How many profile names lie above the floor (duplicates counted).
pub open spec fn spec_names_above_count(
    profiles: Seq<(String, Vec<(String, String)>)>,
    floor: Option<Seq<char>>,
) -> nat
    decreases profiles.len(),
{
    if profiles.len() == 0 {
        0
    } else {
        (if spec_name_above(profiles[0].0@, floor) {
            1nat
        } else {
            0nat
        }) + spec_names_above_count(profiles.drop_first(), floor)
    }
}

/// Raising the floor to the minimum above it strictly shrinks the count of
/// names above.
proof fn lemma_names_above_count_shrinks(
    profiles: Seq<(String, Vec<(String, String)>)>,
    floor: Option<Seq<char>>,
    m: Seq<char>,
)
    requires
        spec_name_above(m, floor),
        forall|k: int| 0 <= k < profiles.len() && spec_name_above(
            (#[trigger] profiles[k]).0@,
            floor,
        ) ==> !crate::text::spec_str_lt(profiles[k].0@, m),
    ensures
        spec_names_above_count(profiles, Some(m)) <= spec_names_above_count(profiles, floor),
        (exists|k: int| 0 <= k < profiles.len() && (#[trigger] profiles[k]).0@ == m)
            ==> spec_names_above_count(profiles, Some(m)) < spec_names_above_count(
            profiles,
            floor,
        ),
    decreases profiles.len(),
{
    if profiles.len() > 0 {
        let v = profiles[0].0@;
        assert(forall|k: int|
            0 <= k < profiles.drop_first().len() && spec_name_above(
                (#[trigger] profiles.drop_first()[k]).0@,
                floor,
            ) ==> !crate::text::spec_str_lt(profiles.drop_first()[k].0@, m));
        lemma_names_above_count_shrinks(profiles.drop_first(), floor, m);
        if spec_name_above(v, Some(m)) {
            assert(crate::text::spec_str_lt(m, v));
            assert(spec_name_above(v, floor)) by {
                match floor {
                    Some(f) => {
                        crate::text::lemma_str_lt_transitive(f, m, v);
                    },
                    None => {},
                }
            }
        }
        if v == m {
            assert(!spec_name_above(v, Some(m))) by {
                crate::text::lemma_str_lt_irreflexive(m);
            }
            assert(spec_name_above(v, floor));
        }
        if exists|k: int| 0 <= k < profiles.len() && (#[trigger] profiles[k]).0@ == m {
            let w = choose|k: int| 0 <= k < profiles.len() && (#[trigger] profiles[k]).0@ == m;
            if w > 0 {
                assert(profiles.drop_first()[w - 1].0@ == m);
            }
        }
    }
}

/// The profile names above the floor, ascending, each once.
pub open spec fn spec_profile_names_above(
    profiles: Seq<(String, Vec<(String, String)>)>,
    floor: Option<Seq<char>>,
) -> Seq<Seq<char>>
    decreases spec_names_above_count(profiles, floor)
    via spec_profile_names_above_decreases
{
    match spec_min_name_above(profiles, floor) {
        Some(m) => seq![m] + spec_profile_names_above(profiles, Some(m)),
        None => Seq::empty(),
    }
}

#[via_fn]
proof fn spec_profile_names_above_decreases(
    profiles: Seq<(String, Vec<(String, String)>)>,
    floor: Option<Seq<char>>,
) {
    match spec_min_name_above(profiles, floor) {
        Some(m) => {
            lemma_min_name_above(profiles, floor);
            lemma_min_is_lower_bound(profiles, floor);
            lemma_names_above_count_shrinks(profiles, floor, m);
        },
        None => {},
    }
}

/// The found minimum is a lower bound for every name above the floor.
proof fn lemma_min_is_lower_bound(
    profiles: Seq<(String, Vec<(String, String)>)>,
    floor: Option<Seq<char>>,
)
    ensures
        spec_min_name_above(profiles, floor) matches Some(m) ==> forall|k: int|
            0 <= k < profiles.len() && spec_name_above((#[trigger] profiles[k]).0@, floor)
                ==> !crate::text::spec_str_lt(profiles[k].0@, m),
    decreases profiles.len(),
{
    if profiles.len() > 0 {
        lemma_min_is_lower_bound(profiles.drop_first(), floor);
        if spec_min_name_above(profiles, floor) is Some {
            let m = spec_min_name_above(profiles, floor)->0;
            assert forall|k: int|
                0 <= k < profiles.len() && spec_name_above((#[trigger] profiles[k]).0@, floor)
                    implies !crate::text::spec_str_lt(profiles[k].0@, m) by {
                if k == 0 {
                    if crate::text::spec_str_lt(profiles[0].0@, m) {
                        assert(spec_name_above(profiles[0].0@, floor));
                        crate::text::lemma_str_lt_irreflexive(profiles[0].0@);
                        match spec_min_name_above(profiles.drop_first(), floor) {
                            Some(r) => {
                                if !crate::text::spec_str_lt(profiles[0].0@, r) {
                                    assert(m == r);
                                }
                            },
                            None => {},
                        }
                    }
                } else {
                    assert(profiles.drop_first()[k - 1].0@ == profiles[k].0@);
                    if crate::text::spec_str_lt(profiles[k].0@, m) {
                        match spec_min_name_above(profiles.drop_first(), floor) {
                            Some(r) => {
                                if m != r {
                                    assert(spec_name_above(profiles[0].0@, floor));
                                    assert(m == profiles[0].0@);
                                    assert(crate::text::spec_str_lt(profiles[0].0@, r));
                                    assert(!crate::text::spec_str_lt(profiles[k].0@, r));
                                    assert(crate::text::spec_str_lt(profiles[k].0@, m));
                                    crate::text::lemma_str_lt_transitive(profiles[k].0@, m, r);
                                }
                            },
                            None => {
                                lemma_min_name_above(profiles.drop_first(), floor);
                                assert(!spec_name_above(profiles.drop_first()[k - 1].0@, floor));
                                assert(false);
                            },
                        }
                    }
                }
            }
        }
    }
}

} // verus!

verus! {

/// The smallest profile name above the floor, by scanning the rows.
fn next_name_above(
    profiles: &Vec<(String, Vec<(String, String)>)>,
    floor: Option<&String>,
) -> (r: Option<String>)
    ensures
        ({
            let fv = match floor {
                Some(f) => Some(f@),
                None => None,
            };
            match r {
                Some(s) => spec_min_name_above(profiles@, fv) == Some(s@),
                None => spec_min_name_above(profiles@, fv) is None,
            }
        }),
{
    let ghost fv: Option<Seq<char>> = match floor {
        Some(f) => Some(f@),
        None => None,
    };
    let n = profiles.len();
    let mut best: Option<String> = None;
    let mut i: usize = n;
    proof {
        assert(profiles@.skip(n as int) =~= Seq::<(String, Vec<(String, String)>)>::empty());
    }
    while i > 0
        invariant
            n == profiles@.len(),
            i <= n,
            fv == (match floor {
                Some(f) => Some(f@),
                None => None,
            }),
            match best {
                Some(b) => spec_min_name_above(profiles@.skip(i as int), fv) == Some(b@),
                None => spec_min_name_above(profiles@.skip(i as int), fv) is None,
            },
        decreases i,
    {
        proof {
            assert(profiles@.skip(i as int - 1)[0] == profiles@[i as int - 1]);
            assert(profiles@.skip(i as int - 1).drop_first() =~= profiles@.skip(i as int));
        }
        let v = &profiles[i - 1].0;
        let above = match floor {
            Some(f) => crate::text::str_lt(f.as_str(), v.as_str()),
            None => true,
        };
        if above {
            best = match best {
                Some(b) => {
                    if crate::text::str_lt(v.as_str(), b.as_str()) {
                        Some(v.clone())
                    } else {
                        Some(b)
                    }
                },
                None => Some(v.clone()),
            };
        }
        i = i - 1;
    }
    proof {
        assert(profiles@.skip(0) =~= profiles@);
    }
    best
}

impl DeviceDatabase {
    /// Every axis-profile name in the table, each once, in ascending
    /// order.
    pub fn get_profile_names(&self) -> (r: Vec<String>)
        ensures
            r@.map_values(|s: String| s@) == spec_profile_names_above(self.axis_profiles@, None),
    {
        let mut r: Vec<String> = Vec::new();
        let mut last: Option<String> = None;
        proof {
            assert(r@.map_values(|s: String| s@) =~= Seq::<Seq<char>>::empty());
        }
        loop
            invariant
                spec_profile_names_above(self.axis_profiles@, None) == r@.map_values(
                    |s: String| s@,
                ) + spec_profile_names_above(
                    self.axis_profiles@,
                    match last {
                        Some(l) => Some(l@),
                        None => None,
                    },
                ),
            decreases spec_names_above_count(
                self.axis_profiles@,
                match last {
                    Some(l) => Some(l@),
                    None => None,
                },
            ),
        {
            let ghost fv: Option<Seq<char>> = match &last {
                Some(l) => Some(l@),
                None => None,
            };
            match next_name_above(&self.axis_profiles, last.as_ref()) {
                Some(m) => {
                    proof {
                        lemma_min_name_above(self.axis_profiles@, fv);
                        lemma_min_is_lower_bound(self.axis_profiles@, fv);
                        lemma_names_above_count_shrinks(self.axis_profiles@, fv, m@);
                        let ghost before = r@.map_values(|s: String| s@);
                        assert(before + (seq![m@] + spec_profile_names_above(
                            self.axis_profiles@,
                            Some(m@),
                        )) =~= before.push(m@) + spec_profile_names_above(
                            self.axis_profiles@,
                            Some(m@),
                        ));
                    }
                    let ghost before = r@;
                    r.push(m.clone());
                    proof {
                        assert(r@.map_values(|s: String| s@) =~= before.map_values(
                            |s: String| s@,
                        ).push(r@.last()@));
                    }
                    last = Some(m);
                },
                None => {
                    proof {
                        assert(spec_profile_names_above(self.axis_profiles@, fv)
                            =~= Seq::<Seq<char>>::empty());
                        assert(r@.map_values(|s: String| s@) + Seq::<Seq<char>>::empty()
                            =~= r@.map_values(|s: String| s@));
                    }
                    return r;
                },
            }
        }
    }
}

} // verus!

//! Stable device identities and best-effort friendly naming.
//!
//! The identity key for a generic-backend device is the lowercase hex
//! encoding of its 128-bit signature when one is reported, else the raw name
//! joined with the enumeration index.  Legacy-backend devices are keyed by
//! their fixed slot as `xinput_{slot}`.  Friendly naming is a lookup chain
//! used only for display; every step may fail and the raw OS name always
//! remains as the final answer.

use vstd::prelude::*;
use crate::device_database::{spec_lookup, DeviceDatabase, DeviceEntry};
use crate::text::{
    append_hex_byte, contains_str, dec_string, hex4_string, lower_seq, lower_string,
    spec_contains, spec_dec, spec_hex4, spec_hex_byte,
};

verus! {

/// Lowercase hex encoding of a byte sequence, no separators.
pub open spec fn spec_hex_bytes(bs: Seq<u8>) -> Seq<char>
    decreases bs.len(),
{
    if bs.len() == 0 {
        Seq::empty()
    } else {
        spec_hex_bytes(bs.drop_last()) + spec_hex_byte(bs.last() as nat)
    }
}

/// The stable identity of a generic-backend device: the hex-encoded
/// signature when it is non-zero, else `{name}_{fallback_id}`.
pub fn resolve_device_uuid(raw: &[u8], name: &str, fallback_id: u64) -> (r: String)
    ensures
        (forall|i: int| 0 <= i < raw@.len() ==> raw@[i] == 0) ==> r@ == name@ + "_"@ + spec_dec(
            fallback_id as nat,
        ),
        !(forall|i: int| 0 <= i < raw@.len() ==> raw@[i] == 0) ==> r@ == spec_hex_bytes(raw@),
{
    let n = raw.len();
    let mut all_zero = true;
    let mut i: usize = 0;
    while i < n
        invariant
            n == raw@.len(),
            i <= n,
            all_zero == (forall|k: int| 0 <= k < i ==> raw@[k] == 0),
        decreases n - i,
    {
        if raw[i] != 0 {
            all_zero = false;
        }
        i = i + 1;
    }
    if all_zero {
        let mut r = name.to_owned();
        r.append("_");
        let id = dec_string(fallback_id);
        r.append(id.as_str());
        r
    } else {
        let mut r = String::new();
        let mut i: usize = 0;
        while i < n
            invariant
                n == raw@.len(),
                i <= n,
                r@ == spec_hex_bytes(raw@.take(i as int)),
            decreases n - i,
        {
            append_hex_byte(&mut r, raw[i]);
            i = i + 1;
            assert(raw@.take(i as int).drop_last() =~= raw@.take(i as int - 1));
        }
        assert(raw@.take(n as int) =~= raw@);
        r
    }
}

/// The stable identity of a legacy-backend device: `xinput_{slot}` over the
/// fixed four-slot address space.
pub fn resolve_xinput_uuid(controller_id: u32) -> (r: String)
    ensures
        r@ == "xinput_"@ + spec_dec(controller_id as nat),
{
    let mut r = String::from_str("xinput_");
    let id = dec_string(controller_id as u64);
    r.append(id.as_str());
    r
}

/// The generic label used for a known flight-hardware vendor whose device
/// is not in the table.
pub open spec fn spec_vendor_label(vendor_id: u16) -> Option<Seq<char>> {
    if vendor_id == 0x231d {
        Some("VKB Sim Device"@)
    } else if vendor_id == 0x044f {
        Some("Thrustmaster"@)
    } else if vendor_id == 0x06a3 {
        Some("Saitek/Mad Catz"@)
    } else if vendor_id == 0x068e {
        Some("CH Products"@)
    } else if vendor_id == 0x3344 {
        Some("VirPil"@)
    } else {
        None
    }
}

/// The friendly-name chain: the backend's mapping name if present, else the
/// device-table name keyed by vendor and product, else — for a known vendor
/// whose OS name is only a generic HID label — `{vendor label} (PID:
/// 0x{pid})`, else the raw OS name.
pub open spec fn spec_friendly_name(
    map_name: Option<Seq<char>>,
    vendor_id: Option<u16>,
    product_id: Option<u16>,
    os_name: Seq<char>,
    devices: Seq<(u32, u32, DeviceEntry)>,
) -> Seq<char> {
    match map_name {
        Some(m) => m,
        None => match (vendor_id, product_id) {
            (Some(v), Some(p)) => match spec_lookup(devices, v as u32, p as u32) {
                Some(e) => e.name@,
                None => match spec_vendor_label(v) {
                    Some(label) => if spec_contains(lower_seq(os_name), "hid"@) {
                        label + " (PID: 0x"@ + spec_hex4(p as nat) + ")"@
                    } else {
                        os_name
                    },
                    None => os_name,
                },
            },
            _ => os_name,
        },
    }
}

fn vendor_fallback_label(vendor_id: u16) -> (r: Option<String>)
    ensures
        match r {
            Some(s) => spec_vendor_label(vendor_id) == Some(s@),
            None => spec_vendor_label(vendor_id) is None,
        },
{
    if vendor_id == 0x231d {
        Some(String::from_str("VKB Sim Device"))
    } else if vendor_id == 0x044f {
        Some(String::from_str("Thrustmaster"))
    } else if vendor_id == 0x06a3 {
        Some(String::from_str("Saitek/Mad Catz"))
    } else if vendor_id == 0x068e {
        Some(String::from_str("CH Products"))
    } else if vendor_id == 0x3344 {
        Some(String::from_str("VirPil"))
    } else {
        None
    }
}

/// Resolves the display name of a device through the friendly-name chain.
/// Naming never fails: the raw OS name is the final fallback.
pub fn friendly_device_name(
    map_name: Option<&String>,
    vendor_id: Option<u16>,
    product_id: Option<u16>,
    os_name: &str,
    db: &DeviceDatabase,
) -> (r: String)
    ensures
        r@ == spec_friendly_name(
            match map_name {
                Some(m) => Some(m@),
                None => None,
            },
            vendor_id,
            product_id,
            os_name@,
            db.devices@,
        ),
{
    if let Some(m) = map_name {
        return m.clone();
    }
    if let (Some(v), Some(p)) = (vendor_id, product_id) {
        if let Some(e) = db.lookup_device(v as u32, p as u32) {
            return e.name;
        }
        if let Some(label) = vendor_fallback_label(v) {
            let lowered = lower_string(os_name);
            if contains_str(lowered.as_str(), "hid") {
                let mut r = label;
                r.append(" (PID: 0x");
                let pid = hex4_string(p);
                r.append(pid.as_str());
                r.append(")");
                return r;
            }
        }
    }
    os_name.to_owned()
}

} // verus!

//! Raw HID diagnostics: device list rows, raw axis reports, and a tracker
//! that identifies axis bytes by watching which report bytes change across
//! polls.

use vstd::prelude::*;
use std::time::{SystemTime, UNIX_EPOCH};

verus! {

/// One HID device as enumerated by the host.
pub struct HidDeviceListItem {
    pub vendor_id: u16,
    pub product_id: u16,
    pub serial_number: Option<String>,
    pub manufacturer: Option<String>,
    pub product: Option<String>,
    pub path: String,
    pub interface_number: i32,
}

/// Raw axis values extracted from one HID input report, keyed by 1-based
/// axis number.
pub struct HidAxisReport {
    pub axis_values: Vec<(u32, u16)>,
    pub axis_bit_depths: Vec<(u32, u8)>,
    pub axis_names: Vec<(u32, String)>,
    pub timestamp_ms: u64,
    pub is_16bit: bool,
}

/// Relies on `SystemTime::now` and `duration_since(UNIX_EPOCH)`: the wall
/// clock in milliseconds.  Nothing is promised of the value.
#[verifier::external_body]
fn now_ms() -> u64 {
    match SystemTime::now().duration_since(UNIX_EPOCH) {
        Ok(d) => d.as_millis() as u64,
        Err(_) => 0,
    }
}

/// Tracks which bytes of a fixed-size report change between polls; a byte
/// that has changed at least once is treated as an axis.  Change counts
/// are kept per byte position.
pub struct HidAxisTracker {
    pub previous_report: Vec<u8>,
    pub change_counts: Vec<u64>,
}

/// The change count recorded for byte position `i` (0 when never counted).
pub open spec fn spec_count(counts: Seq<u64>, i: int) -> u64 {
    if 0 <= i < counts.len() {
        counts[i]
    } else {
        0
    }
}

/// Whether a poll diffs against the previous report: only when one exists
/// and the sizes agree.
pub open spec fn spec_diff_applies(prev: Seq<u8>, report: Seq<u8>) -> bool {
    prev.len() > 0 && prev.len() == report.len()
}

/// The tracked axis values extracted from `report` under `counts`, from
/// byte `i` up: bytes past the header (report id and button bytes) whose
/// position has changed before, or sits within the first eight candidate
/// positions, keyed 1-based from the header boundary.
pub open spec fn spec_tracked_values(counts: Seq<u64>, report: Seq<u8>, start: int, i: int)
    -> Seq<(u32, u16)>
    decreases report.len() - i,
{
    if i < start || i >= report.len() {
        Seq::empty()
    } else {
        let rest = spec_tracked_values(counts, report, start, i + 1);
        if spec_count(counts, i) > 0 || i < start + 8 {
            seq![(((i - start + 1) as u32), (report[i] as u16))] + rest
        } else {
            rest
        }
    }
}

impl HidAxisTracker {
    /// A tracker with no history.
    pub fn new() -> (r: HidAxisTracker)
        ensures
            r.previous_report@.len() == 0,
            r.change_counts@.len() == 0,
    {
        HidAxisTracker { previous_report: Vec::new(), change_counts: Vec::new() }
    }

    /// Ingests one report: when its size matches the previous one, every
    /// changed byte's count rises by one; the report becomes the new
    /// history.  Returns the bytes currently treated as axes (changed
    /// before, or among the first eight candidates past the 5-byte
    /// header), as 8-bit values keyed 1-based; the tracker has no
    /// descriptor, so the names are empty and the depth of every tracked
    /// byte is 8.
    #[verifier::rlimit(100)]
    #[verifier::spinoff_prover]
    pub fn process_report(&mut self, report: &[u8]) -> (r: Result<HidAxisReport, String>)
        requires
            report@.len() <= u32::MAX,
        ensures
            final(self).previous_report@ == report@,
            final(self).change_counts@.len() >= old(self).change_counts@.len(),
            forall|i: int| 0 <= i < report@.len() ==> spec_count(final(self).change_counts@, i)
                == if spec_diff_applies(old(self).previous_report@, report@) && report@[i] != old(
                self,
            ).previous_report@[i] && spec_count(old(self).change_counts@, i) < u64::MAX {
                (spec_count(old(self).change_counts@, i) + 1) as u64
            } else {
                spec_count(old(self).change_counts@, i)
            },
            forall|i: int| report@.len() <= i ==> spec_count(final(self).change_counts@, i)
                == spec_count(old(self).change_counts@, i),
            ({
                let start = if report@.len() < 5 {
                    report@.len() as int
                } else {
                    5
                };
                match r {
                    Ok(rep) => rep.axis_values@ == spec_tracked_values(
                        final(self).change_counts@,
                        report@,
                        start,
                        start,
                    ) && rep.axis_bit_depths@.len() == rep.axis_values@.len() && (forall|k: int|
                        0 <= k < rep.axis_values@.len() ==> (#[trigger] rep.axis_bit_depths@[k])
                            == (rep.axis_values@[k].0, 8u8)) && rep.axis_names@.len() == 0
                        && rep.is_16bit == false,
                    Err(_) => false,
                }
            }),
    {
        let rlen = report.len();
        let old_len = self.change_counts.len();
        let total: usize = if old_len < rlen {
            rlen
        } else {
            old_len
        };
        let diff_applies = self.previous_report.len() > 0 && self.previous_report.len() == rlen;
        let mut new_counts: Vec<u64> = Vec::new();
        let mut i: usize = 0;
        while i < total
            invariant
                rlen == report@.len(),
                old_len == old(self).change_counts@.len(),
                total == (if old_len < rlen {
                    rlen as int
                } else {
                    old_len as int
                }),
                self.change_counts == old(self).change_counts,
                self.previous_report == old(self).previous_report,
                diff_applies == spec_diff_applies(old(self).previous_report@, report@),
                i <= total,
                new_counts@.len() == i,
                forall|k: int| 0 <= k < i ==> #[trigger] new_counts@[k] == (if diff_applies && k
                    < rlen && report@[k] != old(self).previous_report@[k] && spec_count(
                    old(self).change_counts@,
                    k,
                ) < u64::MAX {
                    (spec_count(old(self).change_counts@, k) + 1) as u64
                } else {
                    spec_count(old(self).change_counts@, k)
                }),
            decreases total - i,
        {
            let base: u64 = if i < old_len {
                self.change_counts[i]
            } else {
                0
            };
            let bump = diff_applies && i < rlen && report[i] != self.previous_report[i] && base
                < u64::MAX;
            if bump {
                new_counts.push(base + 1);
            } else {
                new_counts.push(base);
            }
            i = i + 1;
        }
        self.change_counts = new_counts;
        let ghost counts_final = self.change_counts@;
        proof {
            assert forall|q: int| 0 <= q < report@.len() implies spec_count(counts_final, q) == (
            if spec_diff_applies(old(self).previous_report@, report@) && report@[q] != old(
                self,
            ).previous_report@[q] && spec_count(old(self).change_counts@, q) < u64::MAX {
                (spec_count(old(self).change_counts@, q) + 1) as u64
            } else {
                spec_count(old(self).change_counts@, q)
            }) by {
                if !spec_diff_applies(old(self).previous_report@, report@) {
                    assert(spec_count(counts_final, q) == spec_count(
                        old(self).change_counts@,
                        q,
                    ));
                }
            }
        }
        let start: usize = if rlen < 5 {
            rlen
        } else {
            5
        };
        let mut axis_values: Vec<(u32, u16)> = Vec::new();
        let mut axis_bit_depths: Vec<(u32, u8)> = Vec::new();
        let ghost counts = self.change_counts@;
        let mut i: usize = start;
        while i < rlen
            invariant
                rlen == report@.len(),
                start <= i <= rlen || (start == rlen && i == start),
                start == (if report@.len() < 5 {
                    report@.len() as int
                } else {
                    5
                }),
                counts == self.change_counts@,
                counts == counts_final,
                rlen <= self.change_counts@.len(),
                i >= start,
                spec_tracked_values(counts, report@, start as int, start as int)
                    == axis_values@ + spec_tracked_values(counts, report@, start as int, i as int),
                axis_bit_depths@.len() == axis_values@.len(),
                forall|k: int| 0 <= k < axis_values@.len() ==> (#[trigger] axis_bit_depths@[k])
                    == (axis_values@[k].0, 8u8),
                rlen <= u32::MAX,
            decreases rlen - i,
        {
            let c = self.change_counts[i];
            if c > 0 || i < start + 8 {
                let id = (i - start + 1) as u32;
                axis_values.push((id, report[i] as u16));
                axis_bit_depths.push((id, 8));
                proof {
                    assert(axis_values@.drop_last() + (seq![
                        (id, report@[i as int] as u16)
                    ] + spec_tracked_values(counts, report@, start as int, i as int + 1))
                        =~= axis_values@ + spec_tracked_values(
                        counts,
                        report@,
                        start as int,
                        i as int + 1,
                    ));
                }
            }
            i = i + 1;
        }
        proof {
            assert(spec_tracked_values(counts, report@, start as int, rlen as int)
                =~= Seq::<(u32, u16)>::empty());
            assert(axis_values@ + Seq::<(u32, u16)>::empty() =~= axis_values@);
        }
        let mut prev: Vec<u8> = Vec::new();
        let mut j: usize = 0;
        while j < rlen
            invariant
                rlen == report@.len(),
                j <= rlen,
                self.change_counts@ == counts_final,
                prev@ =~= report@.take(j as int),
            decreases rlen - j,
        {
            prev.push(report[j]);
            j = j + 1;
            assert(prev@ =~= report@.take(j as int));
        }
        assert(report@.take(rlen as int) =~= report@);
        self.previous_report = prev;
        Ok(
            HidAxisReport {
                axis_values,
                axis_bit_depths,
                axis_names: Vec::new(),
                timestamp_ms: now_ms(),
                is_16bit: false,
            },
        )
    }

    /// The change counts so far: one pair per byte position that has ever
    /// changed, in position order.
    pub fn get_change_report(&self) -> (r: Vec<(usize, u64)>)
        ensures
            r@ == spec_change_pairs(self.change_counts@, 0),
    {
        let mut r: Vec<(usize, u64)> = Vec::new();
        let n = self.change_counts.len();
        let mut i: usize = 0;
        proof {
            assert(Seq::<(usize, u64)>::empty() + spec_change_pairs(self.change_counts@, 0)
                =~= spec_change_pairs(self.change_counts@, 0));
        }
        while i < n
            invariant
                n == self.change_counts@.len(),
                i <= n,
                spec_change_pairs(self.change_counts@, 0) == r@ + spec_change_pairs(
                    self.change_counts@,
                    i as int,
                ),
            decreases n - i,
        {
            let c = self.change_counts[i];
            if c > 0 {
                r.push((i, c));
                proof {
                    assert(r@.drop_last() + (seq![(i, c)] + spec_change_pairs(
                        self.change_counts@,
                        i as int + 1,
                    )) =~= r@ + spec_change_pairs(self.change_counts@, i as int + 1));
                }
            }
            i = i + 1;
        }
        proof {
            assert(spec_change_pairs(self.change_counts@, n as int)
                =~= Seq::<(usize, u64)>::empty());
            assert(r@ + Seq::<(usize, u64)>::empty() =~= r@);
        }
        r
    }
}

/// The positions with a positive change count, in order, paired with their
/// counts, from position `i` up.
pub open spec fn spec_change_pairs(counts: Seq<u64>, i: int) -> Seq<(usize, u64)>
    decreases counts.len() - i,
{
    if i < 0 || i >= counts.len() {
        Seq::empty()
    } else {
        let rest = spec_change_pairs(counts, i + 1);
        if counts[i] > 0 {
            seq![(i as usize, counts[i])] + rest
        } else {
            rest
        }
    }
}

} // verus!


verus! {

/// The effective precision of an axis reading, rounded up to the common
/// joystick depths: 8, 10, 11, 12 or 16 bits (1 for a zero reading).
pub open spec fn spec_bit_depth(value: u16) -> u8 {
    if value == 0 {
        1
    } else if value < 256 {
        8
    } else if value < 1024 {
        10
    } else if value < 2048 {
        11
    } else if value < 4096 {
        12
    } else {
        16
    }
}

/// Detects how many bits an axis value actually uses.
pub fn detect_bit_depth(value: u16) -> (r: u8)
    ensures
        r == spec_bit_depth(value),
{
    if value == 0 {
        1
    } else if value < 256 {
        8
    } else if value < 1024 {
        10
    } else if value < 2048 {
        11
    } else if value < 4096 {
        12
    } else {
        16
    }
}

} // verus!

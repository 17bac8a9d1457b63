//! Per-axis hysteresis debouncing: turns a stream of analog axis samples into
//! at most one directional trigger per excursion.
//!
//! Axis deflections are fixed-point milli-units: the backend's `[-1.0, 1.0]`
//! range maps to `[-1000, 1000]`.  The trigger threshold is 0.5 (500), the
//! reset band 0.3 (300), and the minimum-movement gate 0.3 (300) measured
//! against the value recorded at the last state change, not the value at
//! session start.

use vstd::prelude::*;

verus! {

/// Deflection (in milli-units) beyond which an axis triggers.
pub const TRIGGER_MILLI: i32 = 500;

/// Deflection (in milli-units) below which an axis re-arms (hysteresis).
pub const RESET_MILLI: i32 = 300;

/// Minimum movement (in milli-units) away from the recorded value required
/// for a trigger, preventing spring-back overshoot from double-firing.
pub const MOVEMENT_MILLI: i32 = 300;

/// Debounce state of one axis.  `last_triggered_direction` is `Some(true)`
/// after a positive trigger, `Some(false)` after a negative one, and `None`
/// once the axis has returned to the reset band (armed).
#[derive(Clone, Copy, PartialEq, Eq, Structural, Debug)]
pub struct AxisState {
    pub last_value: i32,
    pub last_triggered_direction: Option<bool>,
}

/// Identifies one axis of one device within one backend's numbering space.
#[derive(Clone, Copy, PartialEq, Eq, Structural, Debug)]
pub struct AxisKey {
    pub device: u32,
    pub axis: u64,
}

/// Absolute difference, computed in `int` to avoid overflow concerns.
pub open spec fn spec_abs_diff(a: int, b: int) -> int {
    if a >= b {
        a - b
    } else {
        b - a
    }
}

/// One debounce step of the delta-gated variant: the reset band re-arms and
/// records the value; a trigger fires only past the threshold, with enough
/// movement from the recorded value, in a direction not yet fired; firing
/// records the value and the direction.  Otherwise the state is unchanged.
/// Returns the new state and the fired direction, if any.
pub open spec fn spec_step(st: AxisState, v: i32) -> (AxisState, Option<bool>) {
    let delta = spec_abs_diff(v as int, st.last_value as int);
    let is_positive = v > TRIGGER_MILLI;
    let is_negative = (v as int) < -(TRIGGER_MILLI as int);
    let is_centered = spec_abs_diff(v as int, 0) < RESET_MILLI as int;
    let armed = if is_centered {
        AxisState { last_value: v, last_triggered_direction: None }
    } else {
        st
    };
    let fire_positive = is_positive && delta > MOVEMENT_MILLI as int
        && armed.last_triggered_direction != Some(true);
    let fire_negative = is_negative && delta > MOVEMENT_MILLI as int
        && armed.last_triggered_direction != Some(false);
    if fire_positive {
        (AxisState { last_value: v, last_triggered_direction: Some(true) }, Some(true))
    } else if fire_negative {
        (AxisState { last_value: v, last_triggered_direction: Some(false) }, Some(false))
    } else {
        (armed, None)
    }
}

/// One debounce step of the streaming variant: no movement gate, the
/// recorded value is updated on every observation, and a trigger fires when
/// the magnitude passes the threshold in a direction other than the one last
/// fired.  This asymmetry between the two variants is deliberate and mirrors
/// how the two capture paths historically behaved near the threshold.
pub open spec fn spec_step_streaming(st: AxisState, v: i32) -> (AxisState, Option<bool>) {
    let abs_value = spec_abs_diff(v as int, 0);
    let is_positive = v > 0;
    let should_trigger = match st.last_triggered_direction {
        None => abs_value >= TRIGGER_MILLI as int,
        Some(last_positive) => if last_positive == is_positive {
            false
        } else {
            abs_value >= TRIGGER_MILLI as int
        },
    };
    let armed_direction = if abs_value < RESET_MILLI as int {
        None
    } else {
        st.last_triggered_direction
    };
    if should_trigger {
        (AxisState { last_value: v, last_triggered_direction: Some(is_positive) }, Some(
            is_positive,
        ))
    } else {
        (AxisState { last_value: v, last_triggered_direction: armed_direction }, None)
    }
}

fn abs_diff_i32(a: i32, b: i32) -> (r: i64)
    ensures
        r as int == spec_abs_diff(a as int, b as int),
{
    let wide_a = a as i64;
    let wide_b = b as i64;
    if wide_a >= wide_b {
        wide_a - wide_b
    } else {
        wide_b - wide_a
    }
}

/// Applies one delta-gated debounce step to `st` for the sample `v`.
pub fn step(st: &mut AxisState, v: i32) -> (fired: Option<bool>)
    ensures
        *final(st) == spec_step(*old(st), v).0,
        fired == spec_step(*old(st), v).1,
{
    let delta = abs_diff_i32(v, st.last_value);
    let is_positive = v > TRIGGER_MILLI;
    let is_negative = v < -TRIGGER_MILLI;
    let is_centered = abs_diff_i32(v, 0) < RESET_MILLI as i64;
    if is_centered {
        st.last_triggered_direction = None;
        st.last_value = v;
    }
    let fire_positive = is_positive && delta > MOVEMENT_MILLI as i64
        && st.last_triggered_direction != Some(true);
    let fire_negative = is_negative && delta > MOVEMENT_MILLI as i64
        && st.last_triggered_direction != Some(false);
    if fire_positive {
        st.last_triggered_direction = Some(true);
        st.last_value = v;
        Some(true)
    } else if fire_negative {
        st.last_triggered_direction = Some(false);
        st.last_value = v;
        Some(false)
    } else {
        None
    }
}

/// Applies one streaming debounce step to `st` for the sample `v`.
pub fn step_streaming(st: &mut AxisState, v: i32) -> (fired: Option<bool>)
    ensures
        *final(st) == spec_step_streaming(*old(st), v).0,
        fired == spec_step_streaming(*old(st), v).1,
{
    let abs_value = abs_diff_i32(v, 0);
    let is_positive = v > 0;
    let should_trigger = match st.last_triggered_direction {
        None => abs_value >= TRIGGER_MILLI as i64,
        Some(last_positive) => if last_positive == is_positive {
            false
        } else {
            abs_value >= TRIGGER_MILLI as i64
        },
    };
    if abs_value < RESET_MILLI as i64 {
        st.last_triggered_direction = None;
    }
    st.last_value = v;
    if should_trigger {
        st.last_triggered_direction = Some(is_positive);
        Some(is_positive)
    } else {
        None
    }
}

} // verus!

verus! {

// ---------------------------------------------------------------------------
// Runs of the delta-gated debouncer, and the laws it obeys
// ---------------------------------------------------------------------------

/// The state after feeding every sample of `vs`, in order, through the
/// delta-gated step.
pub open spec fn spec_run(st: AxisState, vs: Seq<i32>) -> AxisState
    decreases vs.len(),
{
    if vs.len() == 0 {
        st
    } else {
        spec_run(spec_step(st, vs[0]).0, vs.drop_first())
    }
}

/// How many triggers in direction `dir` a run over `vs` fires.
pub open spec fn spec_fires(st: AxisState, vs: Seq<i32>, dir: bool) -> nat
    decreases vs.len(),
{
    if vs.len() == 0 {
        0
    } else {
        (if spec_step(st, vs[0]).1 == Some(dir) {
            1nat
        } else {
            0nat
        }) + spec_fires(spec_step(st, vs[0]).0, vs.drop_first(), dir)
    }
}

pub proof fn lemma_run_append(st: AxisState, xs: Seq<i32>, ys: Seq<i32>)
    ensures
        spec_run(st, xs + ys) == spec_run(spec_run(st, xs), ys),
    decreases xs.len(),
{
    if xs.len() == 0 {
        assert(xs + ys =~= ys);
    } else {
        assert((xs + ys)[0] == xs[0]);
        assert((xs + ys).drop_first() =~= xs.drop_first() + ys);
        lemma_run_append(spec_step(st, xs[0]).0, xs.drop_first(), ys);
    }
}

pub proof fn lemma_fires_append(st: AxisState, xs: Seq<i32>, ys: Seq<i32>, dir: bool)
    ensures
        spec_fires(st, xs + ys, dir) == spec_fires(st, xs, dir) + spec_fires(
            spec_run(st, xs),
            ys,
            dir,
        ),
    decreases xs.len(),
{
    if xs.len() == 0 {
        assert(xs + ys =~= ys);
    } else {
        assert((xs + ys)[0] == xs[0]);
        assert((xs + ys).drop_first() =~= xs.drop_first() + ys);
        lemma_fires_append(spec_step(st, xs[0]).0, xs.drop_first(), ys, dir);
    }
}

/// The first observation of an axis seeds the state with the observed value
/// itself, so it can never fire: the movement gate sees a zero delta.
pub proof fn lemma_first_observation_never_fires(v: i32)
    ensures
        spec_step(AxisState { last_value: v, last_triggered_direction: None }, v).1 is None,
{
}

/// Once a direction has fired, no trigger fires in either direction for as
/// long as the axis stays outside the reset band and does not cross the
/// opposite trigger threshold; the state does not change either.  This is
/// the "no re-arming without centering" half of the hysteresis design.
pub proof fn lemma_no_retrigger_without_reset(st: AxisState, vs: Seq<i32>, d: bool)
    requires
        st.last_triggered_direction == Some(d),
        forall|i: int| 0 <= i < vs.len() ==> spec_abs_diff(#[trigger] vs[i] as int, 0)
            >= RESET_MILLI as int,
        forall|i: int| 0 <= i < vs.len() ==> (d ==> #[trigger] vs[i] as int
            >= -(TRIGGER_MILLI as int)),
        forall|i: int| 0 <= i < vs.len() ==> (!d ==> #[trigger] vs[i] as int
            <= TRIGGER_MILLI as int),
    ensures
        spec_fires(st, vs, true) == 0,
        spec_fires(st, vs, false) == 0,
        spec_run(st, vs) == st,
    decreases vs.len(),
{
    if vs.len() > 0 {
        assert(spec_step(st, vs[0]).1 is None);
        assert(spec_step(st, vs[0]).0 == st);
        lemma_no_retrigger_without_reset(st, vs.drop_first(), d);
    }
}

/// One excursion fires exactly once: from a state recorded near center and
/// not already triggered positive, samples that approach through the outer
/// band (at or above the reset threshold, at most the trigger threshold)
/// followed by samples beyond the trigger threshold fire exactly one
/// positive trigger and no negative one, and leave the axis latched at the
/// first triggering sample.
pub proof fn lemma_positive_excursion_fires_once(st: AxisState, pre: Seq<i32>, highs: Seq<i32>)
    requires
        st.last_triggered_direction != Some(true),
        spec_abs_diff(st.last_value as int, 0) < TRIGGER_MILLI - MOVEMENT_MILLI,
        forall|i: int| 0 <= i < pre.len() ==> RESET_MILLI as int <= #[trigger] pre[i] as int
            <= TRIGGER_MILLI as int,
        highs.len() > 0,
        forall|i: int| 0 <= i < highs.len() ==> #[trigger] highs[i] as int > TRIGGER_MILLI as int,
    ensures
        spec_fires(st, pre + highs, true) == 1,
        spec_fires(st, pre + highs, false) == 0,
        spec_run(st, pre + highs) == (AxisState {
            last_value: highs[0],
            last_triggered_direction: Some(true),
        }),
    decreases pre.len(),
{
    if pre.len() > 0 {
        assert(spec_step(st, pre[0]).1 is None);
        assert(spec_step(st, pre[0]).0 == st);
        assert((pre + highs)[0] == pre[0]);
        assert((pre + highs).drop_first() =~= pre.drop_first() + highs);
        lemma_positive_excursion_fires_once(st, pre.drop_first(), highs);
    } else {
        assert(pre + highs =~= highs);
        let h0 = highs[0];
        let fired = AxisState { last_value: h0, last_triggered_direction: Some(true) };
        assert(spec_step(st, h0) == (fired, Some(true)));
        lemma_no_retrigger_without_reset(fired, highs.drop_first(), true);
    }
}

/// Two full excursions produce exactly two positive triggers, never more:
/// starting from a fresh axis seeded at rest, a rise past the trigger
/// threshold, a fall back into the reset band, and a second rise past the
/// trigger threshold fire one positive trigger each, and no negative ones.
pub proof fn lemma_two_excursions_fire_twice(
    pre1: Seq<i32>,
    highs1: Seq<i32>,
    w: i32,
    pre2: Seq<i32>,
    highs2: Seq<i32>,
)
    requires
        forall|i: int| 0 <= i < pre1.len() ==> RESET_MILLI as int <= #[trigger] pre1[i] as int
            <= TRIGGER_MILLI as int,
        highs1.len() > 0,
        forall|i: int| 0 <= i < highs1.len() ==> #[trigger] highs1[i] as int
            > TRIGGER_MILLI as int,
        spec_abs_diff(w as int, 0) < TRIGGER_MILLI - MOVEMENT_MILLI,
        forall|i: int| 0 <= i < pre2.len() ==> RESET_MILLI as int <= #[trigger] pre2[i] as int
            <= TRIGGER_MILLI as int,
        highs2.len() > 0,
        forall|i: int| 0 <= i < highs2.len() ==> #[trigger] highs2[i] as int
            > TRIGGER_MILLI as int,
    ensures
        ({
            let st0 = AxisState { last_value: 0, last_triggered_direction: None };
            let vs = pre1 + highs1 + seq![w] + pre2 + highs2;
            spec_fires(st0, vs, true) == 2 && spec_fires(st0, vs, false) == 0
        }),
{
    let st0 = AxisState { last_value: 0, last_triggered_direction: None };
    let exc1 = pre1 + highs1;
    let exc2 = pre2 + highs2;
    lemma_positive_excursion_fires_once(st0, pre1, highs1);
    let st1 = AxisState { last_value: highs1[0], last_triggered_direction: Some(true) };
    let st2 = AxisState { last_value: w, last_triggered_direction: None };
    assert(spec_step(st1, w) == (st2, Option::<bool>::None));
    lemma_positive_excursion_fires_once(st2, pre2, highs2);
    let vs = pre1 + highs1 + seq![w] + pre2 + highs2;
    assert(vs =~= exc1 + (seq![w] + exc2));
    lemma_fires_append(st0, exc1, seq![w] + exc2, true);
    lemma_fires_append(st0, exc1, seq![w] + exc2, false);
    lemma_run_append(st0, exc1, seq![w] + exc2);
    assert((seq![w] + exc2).drop_first() =~= exc2);
    assert(spec_fires(st1, seq![w] + exc2, true) == 0 + spec_fires(st2, exc2, true));
    assert(spec_fires(st1, seq![w] + exc2, false) == 0 + spec_fires(st2, exc2, false));
}

} // verus!

verus! {

// ---------------------------------------------------------------------------
// Per-session table of axis states, created lazily on first observation
// ---------------------------------------------------------------------------

/// Whether index `i` is the first entry of `s` whose key is `k`.
pub open spec fn spec_key_at(s: Seq<(AxisKey, AxisState)>, k: AxisKey, i: int) -> bool {
    0 <= i < s.len() && s[i].0 == k && forall|j: int| 0 <= j < i ==> (#[trigger] s[j]).0 != k
}

/// Whether some entry of `s` has key `k`.
pub open spec fn spec_has_key(s: Seq<(AxisKey, AxisState)>, k: AxisKey) -> bool {
    exists|i: int| spec_key_at(s, k, i)
}

/// A fresh state for an axis first observed at `v`: seeded with the value
/// itself, so the first observation never fires.
pub open spec fn spec_seed(v: i32) -> AxisState {
    AxisState { last_value: v, last_triggered_direction: None }
}

/// Two first-match positions for one key coincide.
pub proof fn lemma_key_at_unique(s: Seq<(AxisKey, AxisState)>, k: AxisKey, i: int, j: int)
    requires
        spec_key_at(s, k, i),
        spec_key_at(s, k, j),
    ensures
        i == j,
{
}

/// The table after one delta-gated observation of `(k, v)`, and the fired
/// direction: the first entry for `k` (the seed, if `k` is new) moves by one
/// debounce step; nothing else changes.
pub open spec fn spec_table_observe(s: Seq<(AxisKey, AxisState)>, k: AxisKey, v: i32) -> (
    Seq<(AxisKey, AxisState)>,
    Option<bool>,
) {
    if spec_has_key(s, k) {
        let i = choose|i: int| spec_key_at(s, k, i);
        (s.update(i, (k, spec_step(s[i].1, v).0)), spec_step(s[i].1, v).1)
    } else {
        (s.push((k, spec_step(spec_seed(v), v).0)), spec_step(spec_seed(v), v).1)
    }
}

/// As `spec_table_observe`, through the streaming debounce step.
pub open spec fn spec_table_observe_streaming(
    s: Seq<(AxisKey, AxisState)>,
    k: AxisKey,
    v: i32,
) -> (Seq<(AxisKey, AxisState)>, Option<bool>) {
    if spec_has_key(s, k) {
        let i = choose|i: int| spec_key_at(s, k, i);
        (s.update(i, (k, spec_step_streaming(s[i].1, v).0)), spec_step_streaming(s[i].1, v).1)
    } else {
        (s.push((k, spec_step_streaming(spec_seed(v), v).0)), spec_step_streaming(
            spec_seed(v),
            v,
        ).1)
    }
}

/// The table after seeding key `k` at value `v`: the first entry for `k` is
/// replaced by the seed state, or a new entry is appended.
pub open spec fn spec_table_seed(s: Seq<(AxisKey, AxisState)>, k: AxisKey, v: i32) -> Seq<(
    AxisKey,
    AxisState,
)> {
    if spec_has_key(s, k) {
        let i = choose|i: int| spec_key_at(s, k, i);
        s.update(i, (k, spec_seed(v)))
    } else {
        s.push((k, spec_seed(v)))
    }
}

/// One capture session's axis states, keyed by device and axis, created
/// lazily as axes are first observed.
pub struct AxisTable {
    pub entries: Vec<(AxisKey, AxisState)>,
}

impl AxisTable {
    /// An empty table for a new session.
    pub fn new() -> (r: AxisTable)
        ensures
            r.entries@.len() == 0,
    {
        AxisTable { entries: Vec::new() }
    }

    fn find_index(&self, k: AxisKey) -> (r: Option<usize>)
        ensures
            match r {
                Some(i) => spec_key_at(self.entries@, k, i as int),
                None => !spec_has_key(self.entries@, k),
            },
    {
        let n = self.entries.len();
        let mut i: usize = 0;
        while i < n
            invariant
                n == self.entries@.len(),
                i <= n,
                forall|j: int| 0 <= j < i ==> (#[trigger] self.entries@[j]).0 != k,
            decreases n - i,
        {
            if self.entries[i].0 == k {
                return Some(i);
            }
            i = i + 1;
        }
        assert forall|j: int| !spec_key_at(self.entries@, k, j) by {}
        None
    }

    /// Feeds one sample through the delta-gated debouncer for key `k`,
    /// creating the state on first observation.  The entry for `k` moves by
    /// one debounce step (from the seed if new); no other entry changes.
    pub fn observe(&mut self, k: AxisKey, v: i32) -> (fired: Option<bool>)
        ensures
            final(self).entries@ == spec_table_observe(old(self).entries@, k, v).0,
            fired == spec_table_observe(old(self).entries@, k, v).1,
    {
        match self.find_index(k) {
            Some(i) => {
                proof {
                    let w = choose|w: int| spec_key_at(old(self).entries@, k, w);
                    lemma_key_at_unique(old(self).entries@, k, i as int, w);
                }
                let mut st = self.entries[i].1;
                let fired = step(&mut st, v);
                self.entries[i] = (k, st);
                fired
            },
            None => {
                let mut st = AxisState { last_value: v, last_triggered_direction: None };
                let fired = step(&mut st, v);
                self.entries.push((k, st));
                fired
            },
        }
    }

    /// Like `observe`, but through the streaming debounce variant.
    pub fn observe_streaming(&mut self, k: AxisKey, v: i32) -> (fired: Option<bool>)
        ensures
            final(self).entries@ == spec_table_observe_streaming(old(self).entries@, k, v).0,
            fired == spec_table_observe_streaming(old(self).entries@, k, v).1,
    {
        match self.find_index(k) {
            Some(i) => {
                proof {
                    let w = choose|w: int| spec_key_at(old(self).entries@, k, w);
                    lemma_key_at_unique(old(self).entries@, k, i as int, w);
                }
                let mut st = self.entries[i].1;
                let fired = step_streaming(&mut st, v);
                self.entries[i] = (k, st);
                fired
            },
            None => {
                let mut st = AxisState { last_value: v, last_triggered_direction: None };
                let fired = step_streaming(&mut st, v);
                self.entries.push((k, st));
                fired
            },
        }
    }

    /// Seeds the state for `k` with `v` without running a debounce step,
    /// replacing any existing state; used when a backend's slots are
    /// initialised from a snapshot before the capture loop starts.
    pub fn seed(&mut self, k: AxisKey, v: i32)
        ensures
            final(self).entries@ == spec_table_seed(old(self).entries@, k, v),
    {
        match self.find_index(k) {
            Some(i) => {
                proof {
                    let w = choose|w: int| spec_key_at(old(self).entries@, k, w);
                    lemma_key_at_unique(old(self).entries@, k, i as int, w);
                }
                self.entries[i] = (k, AxisState { last_value: v, last_triggered_direction: None });
            },
            None => {
                self.entries.push((k, AxisState { last_value: v, last_triggered_direction: None }));
            },
        }
    }
}

} // verus!

verus! {

/// The state after feeding every sample of `vs`, in order, through the
/// streaming step.
pub open spec fn spec_run_streaming(st: AxisState, vs: Seq<i32>) -> AxisState
    decreases vs.len(),
{
    if vs.len() == 0 {
        st
    } else {
        spec_run_streaming(spec_step_streaming(st, vs[0]).0, vs.drop_first())
    }
}

/// How many triggers in direction `dir` a streaming run over `vs` fires.
pub open spec fn spec_fires_streaming(st: AxisState, vs: Seq<i32>, dir: bool) -> nat
    decreases vs.len(),
{
    if vs.len() == 0 {
        0
    } else {
        (if spec_step_streaming(st, vs[0]).1 == Some(dir) {
            1nat
        } else {
            0nat
        }) + spec_fires_streaming(spec_step_streaming(st, vs[0]).0, vs.drop_first(), dir)
    }
}

/// Once the streaming variant has fired positive, further positive samples
/// outside the reset band fire nothing in either direction and keep the
/// direction latched.
pub proof fn lemma_streaming_no_refire_same_sign(st: AxisState, vs: Seq<i32>)
    requires
        st.last_triggered_direction == Some(true),
        forall|i: int| 0 <= i < vs.len() ==> #[trigger] vs[i] as int >= RESET_MILLI as int,
    ensures
        spec_fires_streaming(st, vs, true) == 0,
        spec_fires_streaming(st, vs, false) == 0,
        spec_run_streaming(st, vs).last_triggered_direction == Some(true),
    decreases vs.len(),
{
    if vs.len() > 0 {
        let st1 = spec_step_streaming(st, vs[0]).0;
        assert(spec_step_streaming(st, vs[0]).1 is None);
        assert(st1.last_triggered_direction == Some(true));
        lemma_streaming_no_refire_same_sign(st1, vs.drop_first());
    }
}

/// One streaming excursion fires exactly once: from a state not latched
/// positive, approach samples in the outer band below the trigger
/// threshold fire nothing, the first sample at or past the threshold fires
/// positive, and further threshold samples stay quiet.
pub proof fn lemma_streaming_excursion_fires_once(st: AxisState, pre: Seq<i32>, highs: Seq<i32>)
    requires
        st.last_triggered_direction != Some(true),
        forall|i: int| 0 <= i < pre.len() ==> RESET_MILLI as int <= #[trigger] pre[i] as int
            && pre[i] < TRIGGER_MILLI,
        highs.len() > 0,
        forall|i: int| 0 <= i < highs.len() ==> #[trigger] highs[i] as int >= TRIGGER_MILLI as int,
    ensures
        spec_fires_streaming(st, pre + highs, true) == 1,
        spec_fires_streaming(st, pre + highs, false) == 0,
        spec_run_streaming(st, pre + highs).last_triggered_direction == Some(true),
    decreases pre.len(),
{
    if pre.len() > 0 {
        let st1 = spec_step_streaming(st, pre[0]).0;
        assert(spec_step_streaming(st, pre[0]).1 is None);
        assert(st1.last_triggered_direction != Some(true));
        assert((pre + highs)[0] == pre[0]);
        assert((pre + highs).drop_first() =~= pre.drop_first() + highs);
        lemma_streaming_excursion_fires_once(st1, pre.drop_first(), highs);
    } else {
        assert(pre + highs =~= highs);
        let h0 = highs[0];
        let st1 = spec_step_streaming(st, h0).0;
        assert(spec_step_streaming(st, h0).1 == Some(true));
        assert(st1.last_triggered_direction == Some(true));
        assert(forall|i: int| 0 <= i < highs.drop_first().len()
            ==> #[trigger] highs.drop_first()[i] as int >= RESET_MILLI as int);
        lemma_streaming_no_refire_same_sign(st1, highs.drop_first());
    }
}

/// Two full excursions through the streaming variant fire exactly two
/// positive triggers, never more: a rise to the trigger threshold, a fall
/// into the reset band, and a second rise fire one positive trigger each
/// and no negative one.
pub proof fn lemma_streaming_two_excursions_fire_twice(
    pre1: Seq<i32>,
    highs1: Seq<i32>,
    w: i32,
    pre2: Seq<i32>,
    highs2: Seq<i32>,
)
    requires
        forall|i: int| 0 <= i < pre1.len() ==> RESET_MILLI as int <= #[trigger] pre1[i] as int
            && pre1[i] < TRIGGER_MILLI,
        highs1.len() > 0,
        forall|i: int| 0 <= i < highs1.len() ==> #[trigger] highs1[i] as int
            >= TRIGGER_MILLI as int,
        spec_abs_diff(w as int, 0) < RESET_MILLI as int,
        forall|i: int| 0 <= i < pre2.len() ==> RESET_MILLI as int <= #[trigger] pre2[i] as int
            && pre2[i] < TRIGGER_MILLI,
        highs2.len() > 0,
        forall|i: int| 0 <= i < highs2.len() ==> #[trigger] highs2[i] as int
            >= TRIGGER_MILLI as int,
    ensures
        ({
            let st0 = AxisState { last_value: 0, last_triggered_direction: None };
            let vs = pre1 + highs1 + seq![w] + pre2 + highs2;
            spec_fires_streaming(st0, vs, true) == 2 && spec_fires_streaming(st0, vs, false) == 0
        }),
{
    let st0 = AxisState { last_value: 0, last_triggered_direction: None };
    let exc1 = pre1 + highs1;
    let exc2 = pre2 + highs2;
    lemma_streaming_excursion_fires_once(st0, pre1, highs1);
    let st1 = spec_run_streaming(st0, exc1);
    let st2 = spec_step_streaming(st1, w).0;
    assert(spec_step_streaming(st1, w).1 is None);
    assert(st2.last_triggered_direction is None);
    lemma_streaming_excursion_fires_once(st2, pre2, highs2);
    let vs = pre1 + highs1 + seq![w] + pre2 + highs2;
    assert(vs =~= exc1 + (seq![w] + exc2));
    lemma_streaming_fires_append(st0, exc1, seq![w] + exc2, true);
    lemma_streaming_fires_append(st0, exc1, seq![w] + exc2, false);
    lemma_streaming_run_append(st0, exc1, seq![w] + exc2);
    assert((seq![w] + exc2).drop_first() =~= exc2);
    assert(spec_fires_streaming(st1, seq![w] + exc2, true) == 0 + spec_fires_streaming(
        st2,
        exc2,
        true,
    ));
    assert(spec_fires_streaming(st1, seq![w] + exc2, false) == 0 + spec_fires_streaming(
        st2,
        exc2,
        false,
    ));
}

pub proof fn lemma_streaming_run_append(st: AxisState, xs: Seq<i32>, ys: Seq<i32>)
    ensures
        spec_run_streaming(st, xs + ys) == spec_run_streaming(spec_run_streaming(st, xs), ys),
    decreases xs.len(),
{
    if xs.len() == 0 {
        assert(xs + ys =~= ys);
    } else {
        assert((xs + ys)[0] == xs[0]);
        assert((xs + ys).drop_first() =~= xs.drop_first() + ys);
        lemma_streaming_run_append(spec_step_streaming(st, xs[0]).0, xs.drop_first(), ys);
    }
}

pub proof fn lemma_streaming_fires_append(st: AxisState, xs: Seq<i32>, ys: Seq<i32>, dir: bool)
    ensures
        spec_fires_streaming(st, xs + ys, dir) == spec_fires_streaming(st, xs, dir)
            + spec_fires_streaming(spec_run_streaming(st, xs), ys, dir),
    decreases xs.len(),
{
    if xs.len() == 0 {
        assert(xs + ys =~= ys);
    } else {
        assert((xs + ys)[0] == xs[0]);
        assert((xs + ys).drop_first() =~= xs.drop_first() + ys);
        lemma_streaming_fires_append(spec_step_streaming(st, xs[0]).0, xs.drop_first(), ys, dir);
    }
}

} // verus!

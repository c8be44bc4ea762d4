//! Trials of a player on a real video: what is looked at, and when a trial is
//! passed.

use crate::media::{ext_listed, extension_of, has_ext, lowercase_of};
use crate::shared::PlayerState;
use vstd::arithmetic::div_mod::{lemma_fundamental_div_mod, lemma_fundamental_div_mod_converse};
use vstd::prelude::*;

verus! {

/// How far from its target a seek may land.
pub const PTS_TOLERANCE_US: i64 = 150_000;

/// How many frames a trial of playback has to show.
pub const MIN_DISTINCT: usize = 30;

/// How far playback has to come in the trials that play from the start.
pub const MIN_PROGRESS_US: i64 = 1_500_000;

/// How far apart the first and the last frame have to be in the trial of
/// playback that does not get stuck.
pub const MIN_SPAN_US: i64 = 1_000_000;

/// How many frames have to be shown after playback was resumed.
pub const MIN_RESUMED: usize = 10;

/// How far past the target playback has to come after it was resumed.
pub const MIN_RESUMED_US: i64 = 200_000;

/// How often one frame may be landed on in the trial of random seeks.
pub const MAX_REPEAT: usize = 3;

/// The multiplier of the generator.
pub const LCG_MULTIPLIER: u64 = 6364136223846793005;

/// The increment of the generator.
pub const LCG_INCREMENT: u64 = 1442695040888963407;

/// The endings of the files that a trial is made on, in any case.
pub open spec fn trial_exts() -> Seq<Seq<char>> {
    seq!["mp4"@, "mov"@, "mkv"@, "webm"@, "m4v"@]
}

/// The file is one that a trial can be made on.
pub fn is_trial_file(path: &str) -> (r: bool)
    ensures
        r == ext_listed(extension_of(path@), trial_exts()),
{
    let exts: Vec<&str> = vec!["mp4", "mov", "mkv", "webm", "m4v"];
    assert(crate::media::texts(exts@) =~= trial_exts());
    has_ext(path, exts.as_slice())
}

/// What came of a trial.
pub struct ScenarioResult {
    pub name: &'static str,
    pub pass: bool,
    pub details: String,
}

impl ScenarioResult {
    pub fn ok(name: &'static str, details: String) -> (r: ScenarioResult)
        ensures
            r == (ScenarioResult { name, pass: true, details }),
    {
        ScenarioResult { name, pass: true, details }
    }

    pub fn fail(name: &'static str, details: String) -> (r: ScenarioResult)
        ensures
            r == (ScenarioResult { name, pass: false, details }),
    {
        ScenarioResult { name, pass: false, details }
    }

    /// A result by whether the trial was passed.
    pub fn of(name: &'static str, pass: bool, details: String) -> (r: ScenarioResult)
        ensures
            r == (ScenarioResult { name, pass, details }),
    {
        if pass {
            ScenarioResult::ok(name, details)
        } else {
            ScenarioResult::fail(name, details)
        }
    }
}

/// How many of some results are passes.
pub open spec fn passes(results: Seq<ScenarioResult>) -> nat
    decreases results.len(),
{
    if results.len() == 0 {
        0
    } else {
        passes(results.drop_last()) + (if results.last().pass {
            1nat
        } else {
            0nat
        })
    }
}

/// How many trials were passed and how many were not.
pub fn tally(results: &Vec<ScenarioResult>) -> (r: (usize, usize))
    ensures
        r.0 == passes(results@),
        r.0 + r.1 == results@.len(),
{
    let len: usize = results.len();
    let mut passed: usize = 0;
    let mut i: usize = 0;
    while i < len
        invariant
            i <= len,
            len == results@.len(),
            passed <= i,
            passed == passes(results@.take(i as int)),
        decreases len - i,
    {
        assert(results@.take(i as int + 1).drop_last() =~= results@.take(i as int));
        if results[i].pass {
            passed = passed + 1;
        }
        i = i + 1;
    }
    assert(results@.take(len as int) =~= results@);
    (passed, len - passed)
}

/// A linear congruential generator, for random trials that can be repeated.
pub struct Lcg(pub u64);

/// The state of the generator that follows `state`.
pub open spec fn lcg_next(state: u64) -> int {
    (state * LCG_MULTIPLIER + LCG_INCREMENT) % 0x1_0000_0000_0000_0000
}

impl Lcg {
    /// A generator from a seed, made odd.
    pub fn new(seed: u64) -> (r: Lcg)
        ensures
            r.0 == (if seed % 2 == 0 {
                seed + 1
            } else {
                seed as int
            }),
    {
        assert(seed | 1 == if seed % 2 == 0 {
            (seed + 1) as u64
        } else {
            seed
        }) by (bit_vector);
        Lcg(seed | 1)
    }

    /// The next random number: the upper bits of the next state.
    pub fn next_u32(&mut self) -> (r: u32)
        ensures
            final(self).0 == lcg_next(old(self).0),
            r == final(self).0 / 0x2_0000_0000,
            r < 0x8000_0000,
    {
        let product: u64 = self.0.wrapping_mul(LCG_MULTIPLIER);
        let state: u64 = product.wrapping_add(LCG_INCREMENT);
        proof {
            wrapped_sum(self.0 * LCG_MULTIPLIER, product, LCG_INCREMENT);
        }
        self.0 = state;
        assert(state >> 33 == state / 0x2_0000_0000 && state >> 33 < 0x8000_0000) by (bit_vector);
        (state >> 33) as u32
    }
}

/// Adding to what is left of a number modulo the range of `u64`, modulo that
/// range again, is adding to the number modulo that range.
proof fn wrapped_sum(p: int, m: u64, c: u64)
    requires
        m == p % 0x1_0000_0000_0000_0000,
    ensures
        m.wrapping_add(c) == (p + c) % 0x1_0000_0000_0000_0000,
{
    let range: int = 0x1_0000_0000_0000_0000;
    lemma_fundamental_div_mod(p, range);
    if m + c >= range {
        lemma_fundamental_div_mod_converse(p + c, range, p / range + 1, m + c - range);
    } else {
        lemma_fundamental_div_mod_converse(p + c, range, p / range, m + c);
    }
}

/// The distance between two times.
pub open spec fn distance(a: i64, b: i64) -> int {
    if a < b {
        b - a
    } else {
        a - b
    }
}

fn time_between(a: i64, b: i64) -> (r: i128)
    ensures
        r == distance(a, b),
{
    if a < b {
        b as i128 - a as i128
    } else {
        a as i128 - b as i128
    }
}

/// A frame of this time was shown, and is near enough to the target of a seek.
pub open spec fn landed_near(pts_us: i64, target_us: i64) -> bool {
    pts_us != i64::MIN && distance(pts_us, target_us) <= PTS_TOLERANCE_US
}

/// Whether a seek has landed.
pub fn has_landed(pts_us: i64, target_us: i64) -> (r: bool)
    ensures
        r == landed_near(pts_us, target_us),
{
    pts_us != i64::MIN && time_between(pts_us, target_us) <= PTS_TOLERANCE_US as i128
}

/// Whether a frame other than `prev_us` is shown.
pub fn is_new_pts(pts_us: i64, prev_us: i64) -> (r: bool)
    ensures
        r == (pts_us != prev_us && pts_us != i64::MIN),
{
    pts_us != prev_us && pts_us != i64::MIN
}

/// The times of the frames that were seen, each change noted once.
pub struct PtsLog {
    pub seen: Vec<i64>,
}

/// The last time of a log.
pub open spec fn last_seen(seen: Seq<i64>) -> i64 {
    if seen.len() == 0 {
        i64::MIN
    } else {
        seen.last()
    }
}

/// The first time of a log.
pub open spec fn first_seen(seen: Seq<i64>) -> i64 {
    if seen.len() == 0 {
        i64::MIN
    } else {
        seen[0]
    }
}

impl PtsLog {
    pub fn new() -> (r: PtsLog)
        ensures
            r.seen@ == Seq::<i64>::empty(),
    {
        PtsLog { seen: Vec::new() }
    }

    /// Looks at what is shown now.
    pub fn observe(&mut self, pts_us: i64)
        ensures
            final(self).seen@ == (if pts_us != last_seen(old(self).seen@) && pts_us != i64::MIN {
                old(self).seen@.push(pts_us)
            } else {
                old(self).seen@
            }),
    {
        if is_new_pts(pts_us, self.last()) {
            self.seen.push(pts_us);
        }
    }

    pub fn last(&self) -> (r: i64)
        ensures
            r == last_seen(self.seen@),
    {
        let len: usize = self.seen.len();
        if len == 0 {
            i64::MIN
        } else {
            self.seen[len - 1]
        }
    }

    pub fn first(&self) -> (r: i64)
        ensures
            r == first_seen(self.seen@),
    {
        if self.seen.len() == 0 {
            i64::MIN
        } else {
            self.seen[0]
        }
    }

    /// The first time that is less than `window` away from a target.
    pub fn first_near(&self, target_us: i64, window_us: i64) -> (r: Option<i64>)
        ensures
            r == first_within(self.seen@, target_us, window_us as int),
    {
        let len: usize = self.seen.len();
        let mut i: usize = 0;
        assert(self.seen@.skip(0) =~= self.seen@);
        while i < len
            invariant
                i <= len,
                len == self.seen@.len(),
                first_within(self.seen@, target_us, window_us as int) == first_within(
                    self.seen@.skip(i as int),
                    target_us,
                    window_us as int,
                ),
            decreases len - i,
        {
            let pts_us: i64 = self.seen[i];
            assert(self.seen@.skip(i as int).skip(1) =~= self.seen@.skip(i as int + 1));
            if time_between(pts_us, target_us) < window_us as i128 {
                return Some(pts_us);
            }
            i = i + 1;
        }
        None
    }

    /// Playback from the start made progress.
    pub fn played(&self) -> (r: bool)
        ensures
            r == (self.seen@.len() >= MIN_DISTINCT && last_seen(self.seen@) >= MIN_PROGRESS_US),
    {
        self.seen.len() >= MIN_DISTINCT && self.last() >= MIN_PROGRESS_US
    }

    /// Playback did not stop at the first frame.
    pub fn not_stuck(&self) -> (r: bool)
        ensures
            r == (self.seen@.len() >= MIN_DISTINCT && last_seen(self.seen@) - first_seen(self.seen@)
                >= MIN_SPAN_US),
    {
        self.seen.len() >= MIN_DISTINCT && self.last() as i128 - self.first() as i128
            >= MIN_SPAN_US as i128
    }

    /// The first frame near the target of a seek, in a window of one
    /// `parts`th of the video to each side, is at the target.
    pub fn seek_landed(&self, target_us: i64, duration_us: i64, parts: i64) -> (r: bool)
        requires
            duration_us >= 0,
            parts > 0,
        ensures
            r == (first_within(
                self.seen@,
                target_us,
                duration_us as int / parts as int,
            ) matches Some(pts_us) && distance(pts_us, target_us) <= PTS_TOLERANCE_US),
    {
        match self.first_near(target_us, duration_us / parts) {
            Some(pts_us) => time_between(pts_us, target_us) <= PTS_TOLERANCE_US as i128,
            None => false,
        }
    }

    /// Playback goes on behind the target of a seek.
    pub fn resumed(&self, target_us: i64, state: PlayerState) -> (r: bool)
        ensures
            r == (self.seen@.len() >= MIN_RESUMED && last_seen(self.seen@) > target_us
                + MIN_RESUMED_US && state == PlayerState::Playing),
    {
        self.seen.len() >= MIN_RESUMED && self.last() as i128 > target_us as i128
            + MIN_RESUMED_US as i128 && state == PlayerState::Playing
    }
}

/// The first of some times that is less than `window` away from a target.
pub open spec fn first_within(seen: Seq<i64>, target_us: i64, window_us: int) -> Option<i64>
    decreases seen.len(),
{
    if seen.len() == 0 {
        None
    } else if distance(seen[0], target_us) < window_us {
        Some(seen[0])
    } else {
        first_within(seen.skip(1), target_us, window_us)
    }
}

/// Every frame step went on to another frame in the direction of the step: the
/// times rise, or fall, from each to the next.
pub open spec fn strictly(pts: Seq<i64>, forward: bool) -> bool {
    forall|i: int, j: int|
        0 <= i < j < pts.len() ==> if forward {
            #[trigger] pts[i] < #[trigger] pts[j]
        } else {
            pts[i] > pts[j]
        }
}

/// Whether every frame step went on to another frame.
pub fn steps_pass(pts: &Vec<i64>, forward: bool) -> (r: bool)
    ensures
        r == strictly(pts@, forward),
{
    let len: usize = pts.len();
    let mut i: usize = 1;
    while i < len
        invariant
            1 <= i,
            len == pts@.len(),
            i <= len || len == 0,
            strictly(pts@.take(if i <= len {
                i as int
            } else {
                0
            }), forward),
        decreases len - i,
    {
        let moved = if forward {
            pts[i - 1] < pts[i]
        } else {
            pts[i - 1] > pts[i]
        };
        if !moved {
            assert(!(if forward {
                pts@[i - 1] < pts@[i as int]
            } else {
                pts@[i - 1] > pts@[i as int]
            }));
            return false;
        }
        proof {
            let before = pts@.take(i as int);
            let now = pts@.take(i as int + 1);
            assert forall|a: int, b: int| 0 <= a < b < now.len() implies if forward {
                #[trigger] now[a] < #[trigger] now[b]
            } else {
                now[a] > now[b]
            } by {
                if b < i {
                    assert(before[a] == now[a] && before[b] == now[b]);
                } else if a < i - 1 {
                    assert(before[a] == now[a] && before[i - 1] == now[i - 1]);
                }
            }
        }
        i = i + 1;
    }
    assert(pts@.take(len as int) =~= pts@);
    true
}

/// How many different times there are.
pub open spec fn kinds(pts: Seq<i64>) -> nat
    decreases pts.len(),
{
    if pts.len() == 0 {
        0
    } else {
        kinds(pts.drop_last()) + (if pts.drop_last().contains(pts.last()) {
            0nat
        } else {
            1nat
        })
    }
}

/// How often a time occurs.
pub open spec fn repeats(pts: Seq<i64>, value: i64) -> nat
    decreases pts.len(),
{
    if pts.len() == 0 {
        0
    } else {
        repeats(pts.drop_last(), value) + (if pts.last() == value {
            1nat
        } else {
            0nat
        })
    }
}

/// How many different times there are.
pub fn count_kinds(pts: &Vec<i64>) -> (r: usize)
    ensures
        r == kinds(pts@),
        r <= pts@.len(),
{
    let len: usize = pts.len();
    let mut count: usize = 0;
    let mut i: usize = 0;
    while i < len
        invariant
            i <= len,
            len == pts@.len(),
            count <= i,
            count == kinds(pts@.take(i as int)),
        decreases len - i,
    {
        let ghost before = pts@.take(i as int);
        assert(pts@.take(i as int + 1).drop_last() =~= before);
        let mut known = false;
        let mut j: usize = 0;
        while j < i
            invariant
                j <= i,
                i < len,
                len == pts@.len(),
                known <==> exists|k: int| 0 <= k < j && pts@[k] == pts@[i as int],
            decreases i - j,
        {
            if pts[j] == pts[i] {
                known = true;
            }
            j = j + 1;
        }
        proof {
            if known {
                let k = choose|k: int| 0 <= k < i && pts@[k] == pts@[i as int];
                assert(before[k] == pts@[i as int]);
            } else if before.contains(pts@[i as int]) {
                let k = choose|k: int| 0 <= k < before.len() && before[k] == pts@[i as int];
                assert(pts@[k] == pts@[i as int]);
            }
        }
        if !known {
            count = count + 1;
        }
        i = i + 1;
    }
    assert(pts@.take(len as int) =~= pts@);
    count
}

/// How often the time occurs that occurs most often.
pub fn max_repeat(pts: &Vec<i64>) -> (r: usize)
    ensures
        forall|v: i64| #[trigger] repeats(pts@, v) <= r,
        pts@.len() > 0 ==> exists|i: int| 0 <= i < pts@.len() && repeats(pts@, #[trigger] pts@[i])
            == r,
        pts@.len() == 0 ==> r == 0,
{
    let len: usize = pts.len();
    let mut most: usize = 0;
    let mut i: usize = 0;
    while i < len
        invariant
            i <= len,
            len == pts@.len(),
            forall|k: int| 0 <= k < i ==> repeats(pts@, #[trigger] pts@[k]) <= most,
            i > 0 ==> exists|k: int| 0 <= k < i && repeats(pts@, #[trigger] pts@[k]) == most,
            i == 0 ==> most == 0,
        decreases len - i,
    {
        let mut count: usize = 0;
        let mut j: usize = 0;
        while j < len
            invariant
                j <= len,
                i < len,
                len == pts@.len(),
                count <= j,
                count == repeats(pts@.take(j as int), pts@[i as int]),
            decreases len - j,
        {
            assert(pts@.take(j as int + 1).drop_last() =~= pts@.take(j as int));
            if pts[j] == pts[i] {
                count = count + 1;
            }
            j = j + 1;
        }
        assert(pts@.take(len as int) =~= pts@);
        if count > most || i == 0 {
            most = count;
            assert(repeats(pts@, pts@[i as int]) == most);
        }
        i = i + 1;
    }
    assert forall|v: i64| #[trigger] repeats(pts@, v) <= most by {
        repeated_times_occur(pts@, v);
        if repeats(pts@, v) > 0 {
            let k = choose|k: int| 0 <= k < pts@.len() && pts@[k] == v;
            assert(repeats(pts@, pts@[k]) <= most);
        }
    }
    most
}

/// Whether random seeks, of which `failures` did not land, showed different
/// frames.
pub fn random_seeks_pass(failures: usize, landed: &Vec<i64>) -> (r: bool)
    ensures
        r == (failures == 0 && forall|v: i64| #[trigger] repeats(landed@, v) <= MAX_REPEAT),
{
    let most: usize = max_repeat(landed);
    proof {
        if most > MAX_REPEAT {
            if landed@.len() > 0 {
                let i = choose|i: int|
                    0 <= i < landed@.len() && repeats(landed@, #[trigger] landed@[i]) == most;
                assert(repeats(landed@, landed@[i]) > MAX_REPEAT);
            }
        }
    }
    failures == 0 && most <= MAX_REPEAT
}

/// One operation of the mixed trial.
#[derive(Clone, Copy, PartialEq, Eq, Debug, Structural)]
pub enum Op {
    /// A seek to a random place, given by a random number.
    Seek(u32),
    /// Frame steps forward.
    StepF(i32),
    /// Frame steps back.
    StepB(i32),
}

/// The operation that a generator gives from a state, and the state after it.
pub open spec fn op_from(state: u64) -> (Op, u64) {
    let first = lcg_next(state) as u64;
    let second = lcg_next(first) as u64;
    let number = second / 0x2_0000_0000;
    let kind = (first / 0x2_0000_0000) % 3;
    (
        if kind == 0 {
            Op::Seek(number as u32)
        } else if kind == 1 {
            Op::StepF((1 + number % 3) as i32)
        } else {
            Op::StepB((1 + number % 3) as i32)
        },
        second,
    )
}

/// The operations that a generator gives from a state.
pub open spec fn ops_from(state: u64, count: nat) -> Seq<Op>
    decreases count,
{
    if count == 0 {
        Seq::empty()
    } else {
        seq![op_from(state).0] + ops_from(op_from(state).1, (count - 1) as nat)
    }
}

/// The state of a generator after so many operations.
pub open spec fn state_after(state: u64, count: nat) -> u64
    decreases count,
{
    if count == 0 {
        state
    } else {
        state_after(op_from(state).1, (count - 1) as nat)
    }
}

/// The operations of a mixed trial.
pub fn random_ops(rng: &mut Lcg, count: usize) -> (r: Vec<Op>)
    ensures
        r@ == ops_from(old(rng).0, count as nat),
        final(rng).0 == state_after(old(rng).0, count as nat),
{
    let mut ops: Vec<Op> = Vec::new();
    let ghost start = rng.0;
    let mut i: usize = 0;
    assert(ops@ + ops_from(start, count as nat) =~= ops_from(start, count as nat));
    while i < count
        invariant
            i <= count,
            ops_from(start, count as nat) == ops@ + ops_from(rng.0, (count - i) as nat),
            state_after(start, count as nat) == state_after(rng.0, (count - i) as nat),
        decreases count - i,
    {
        let ghost state = rng.0;
        let ghost before = ops@;
        let kind: u32 = rng.next_u32() % 3;
        let number: u32 = rng.next_u32();
        let op = if kind == 0 {
            Op::Seek(number)
        } else if kind == 1 {
            Op::StepF(1 + (number % 3) as i32)
        } else {
            Op::StepB(1 + (number % 3) as i32)
        };
        assert(op == op_from(state).0 && rng.0 == op_from(state).1);
        ops.push(op);
        i = i + 1;
        assert(before + (seq![op] + ops_from(rng.0, (count - i) as nat)) =~= ops@ + ops_from(
            rng.0,
            (count - i) as nat,
        ));
    }
    assert(ops@ + Seq::<Op>::empty() =~= ops@);
    ops
}

/// Whether an operation did what it should: a seek to `target_us` landed, and
/// frame steps went on from `prev_us` in their direction.
pub fn op_passes(op: Op, target_us: i64, prev_us: i64, got_us: i64) -> (r: bool)
    ensures
        r == (match op {
            Op::Seek(_) => distance(got_us, target_us) <= PTS_TOLERANCE_US,
            Op::StepF(_) => got_us > prev_us,
            Op::StepB(_) => got_us < prev_us,
        }),
{
    match op {
        Op::Seek(_) => time_between(got_us, target_us) <= PTS_TOLERANCE_US as i128,
        Op::StepF(_) => got_us > prev_us,
        Op::StepB(_) => got_us < prev_us,
    }
}

/// A time that is counted occurs.
pub proof fn repeated_times_occur(pts: Seq<i64>, value: i64)
    ensures
        repeats(pts, value) > 0 <==> pts.contains(value),
    decreases pts.len(),
{
    if pts.len() > 0 {
        let rest = pts.drop_last();
        repeated_times_occur(rest, value);
        if pts.last() == value {
            assert(pts[pts.len() - 1] == value);
        } else if pts.contains(value) {
            let i = choose|i: int| 0 <= i < pts.len() && pts[i] == value;
            assert(rest[i] == value);
        } else if rest.contains(value) {
            let i = choose|i: int| 0 <= i < rest.len() && rest[i] == value;
            assert(pts[i] == value);
        }
    }
}

/// All times are different exactly if there are as many kinds as times.
pub proof fn all_kinds_differ(pts: Seq<i64>)
    ensures
        kinds(pts) <= pts.len(),
        kinds(pts) == pts.len() <==> pts.no_duplicates(),
    decreases pts.len(),
{
    if pts.len() > 0 {
        let rest = pts.drop_last();
        all_kinds_differ(rest);
        if pts.no_duplicates() {
            assert(forall|i: int| 0 <= i < rest.len() ==> rest[i] == pts[i]);
            assert(rest.no_duplicates());
            assert(!rest.contains(pts.last()));
        } else if kinds(pts) == pts.len() {
            assert forall|i: int, j: int| 0 <= i < pts.len() && 0 <= j < pts.len() && i
                != j implies pts[i] != pts[j] by {
                let (a, b) = if i < j {
                    (i, j)
                } else {
                    (j, i)
                };
                assert(rest[a] == pts[a]);
                if b < rest.len() {
                    assert(rest[b] == pts[b]);
                }
            }
        }
    }
}

/// Steps that pass show a different frame each time.
pub proof fn passing_steps_differ(pts: Seq<i64>, forward: bool)
    requires
        strictly(pts, forward),
    ensures
        pts.no_duplicates(),
        kinds(pts) == pts.len(),
{
    assert forall|i: int, j: int| 0 <= i < pts.len() && 0 <= j < pts.len() && i != j implies pts[i]
        != pts[j] by {
        if i < j {
            assert(pts[i] != pts[j]);
        } else {
            assert(pts[j] != pts[i]);
        }
    }
    all_kinds_differ(pts);
}

/// A trial can be made on the files whose extension is one of these, in any case.
pub proof fn trial_files_are_told_by_their_extension(path: Seq<char>)
    ensures
        extension_of(path) is None ==> !ext_listed(extension_of(path), trial_exts()),
        extension_of(path) matches Some(ext) ==> (ext_listed(extension_of(path), trial_exts())
            <==> {
            let word = lowercase_of(ext);
            ||| word == "mp4"@
            ||| word == "mov"@
            ||| word == "mkv"@
            ||| word == "webm"@
            ||| word == "m4v"@
        }),
{
    let exts = trial_exts();
    assert(exts[0] == "mp4"@ && exts[1] == "mov"@ && exts[2] == "mkv"@);
    assert(exts[3] == "webm"@ && exts[4] == "m4v"@);
}

/// Passes are counted one by one: of two lists together there are as many as of the
/// one and of the other.
pub proof fn passes_are_counted_one_by_one(
    a: Seq<ScenarioResult>,
    b: Seq<ScenarioResult>,
    one: ScenarioResult,
)
    ensures
        passes(Seq::empty()) == 0,
        one.pass ==> passes(seq![one]) == 1,
        !one.pass ==> passes(seq![one]) == 0,
        passes(a + b) == passes(a) + passes(b),
    decreases b.len(),
{
    reveal_with_fuel(passes, 2);
    assert(seq![one].drop_last() =~= Seq::<ScenarioResult>::empty());
    if b.len() == 0 {
        assert(a + b =~= a);
    } else {
        assert((a + b).drop_last() =~= a + b.drop_last());
        passes_are_counted_one_by_one(a, b.drop_last(), one);
    }
}

/// The next state of the generator is what is left of the product and the increment
/// when the upper bits are gone.
pub proof fn the_generator_wraps(state: u64)
    ensures
        0 <= lcg_next(state) < 0x1_0000_0000_0000_0000,
        exists|k: int|
            #![trigger k * 0x1_0000_0000_0000_0000]
            state * 6364136223846793005 + 1442695040888963407 == k * 0x1_0000_0000_0000_0000
                + lcg_next(state),
{
    let range: int = 0x1_0000_0000_0000_0000;
    let sum = state * 6364136223846793005 + 1442695040888963407;
    lemma_fundamental_div_mod(sum, range);
    let k = sum / range;
    assert(sum == k * 0x1_0000_0000_0000_0000 + lcg_next(state));
}

/// The distance of two times is how far the one is from the other, whichever is
/// first.
pub proof fn distances_have_no_sign(a: i64, b: i64)
    ensures
        distance(a, b) >= 0,
        distance(a, b) == a - b || distance(a, b) == b - a,
        distance(a, b) == distance(b, a),
{
}

/// A seek has landed where a frame is shown that is within 150 milliseconds of the
/// target.
pub proof fn a_seek_lands_near_its_target(pts_us: i64, target_us: i64)
    ensures
        landed_near(pts_us, target_us) <==> pts_us != i64::MIN && target_us - 150_000 <= pts_us
            <= target_us + 150_000,
{
}

/// A log begins with its first time and ends with its last; of an empty one neither
/// is known.
pub proof fn a_log_has_two_ends(seen: Seq<i64>)
    ensures
        seen.len() > 0 ==> first_seen(seen) == seen[0] && last_seen(seen) == seen[seen.len() - 1],
        seen.len() == 0 ==> first_seen(seen) == i64::MIN && last_seen(seen) == i64::MIN,
{
}

/// What is found near a target is a time of the log that is less than the window away
/// from it, and none before it in the log is. Nothing is found exactly if there is no
/// such time.
pub proof fn the_first_time_near_is_found(seen: Seq<i64>, target_us: i64, window_us: int)
    ensures
        match first_within(seen, target_us, window_us) {
            Some(pts_us) => exists|i: int|
                0 <= i < seen.len() && #[trigger] seen[i] == pts_us && -window_us < pts_us
                    - target_us < window_us && forall|k: int|
                    0 <= k < i ==> !(-window_us < #[trigger] seen[k] - target_us < window_us),
            None => forall|k: int|
                0 <= k < seen.len() ==> !(-window_us < #[trigger] seen[k] - target_us < window_us),
        },
    decreases seen.len(),
{
    if seen.len() > 0 {
        let rest = seen.skip(1);
        the_first_time_near_is_found(rest, target_us, window_us);
        if -window_us < seen[0] - target_us < window_us {
            assert(seen[0] == first_within(seen, target_us, window_us)->0);
        } else {
            match first_within(rest, target_us, window_us) {
                Some(pts_us) => {
                    let i = choose|i: int|
                        0 <= i < rest.len() && #[trigger] rest[i] == pts_us && -window_us < pts_us
                            - target_us < window_us && forall|k: int|
                            0 <= k < i ==> !(-window_us < #[trigger] rest[k] - target_us
                                < window_us);
                    assert(seen[i + 1] == pts_us);
                    assert forall|k: int| 0 <= k < i + 1 implies !(-window_us < #[trigger] seen[k]
                        - target_us < window_us) by {
                        if k > 0 {
                            assert(rest[k - 1] == seen[k]);
                        }
                    }
                },
                None => {
                    assert forall|k: int| 0 <= k < seen.len() implies !(-window_us
                        < #[trigger] seen[k] - target_us < window_us) by {
                        if k > 0 {
                            assert(rest[k - 1] == seen[k]);
                        }
                    }
                },
            }
        }
    }
}

/// Frame steps pass exactly if each time is behind the one before it, or before it
/// for steps back.
pub proof fn steps_pass_one_by_one(pts: Seq<i64>)
    ensures
        strictly(pts, true) <==> forall|i: int, j: int|
            0 <= i && j == i + 1 && j < pts.len() ==> #[trigger] pts[i] < #[trigger] pts[j],
        strictly(pts, false) <==> forall|i: int, j: int|
            0 <= i && j == i + 1 && j < pts.len() ==> #[trigger] pts[i] > #[trigger] pts[j],
{
    if forall|i: int, j: int|
        0 <= i && j == i + 1 && j < pts.len() ==> #[trigger] pts[i] < #[trigger] pts[j] {
        assert forall|i: int, j: int| 0 <= i < j < pts.len() implies #[trigger] pts[i]
            < #[trigger] pts[j] by {
            steps_add_up(pts, true, i, j);
        }
    }
    if forall|i: int, j: int|
        0 <= i && j == i + 1 && j < pts.len() ==> #[trigger] pts[i] > #[trigger] pts[j] {
        assert forall|i: int, j: int| 0 <= i < j < pts.len() implies #[trigger] pts[i]
            > #[trigger] pts[j] by {
            steps_add_up(pts, false, i, j);
        }
    }
}

proof fn steps_add_up(pts: Seq<i64>, forward: bool, i: int, j: int)
    requires
        0 <= i < j < pts.len(),
        forall|a: int, b: int|
            0 <= a && b == a + 1 && b < pts.len() ==> if forward {
                #[trigger] pts[a] < #[trigger] pts[b]
            } else {
                pts[a] > pts[b]
            },
    ensures
        forward ==> pts[i] < pts[j],
        !forward ==> pts[i] > pts[j],
    decreases j - i,
{
    if i + 1 < j {
        steps_add_up(pts, forward, i, j - 1);
    }
    assert(if forward {
        pts[j - 1] < pts[j]
    } else {
        pts[j - 1] > pts[j]
    });
}

/// There are as many kinds of times as there are members of their set.
pub proof fn kinds_are_members(pts: Seq<i64>)
    ensures
        kinds(pts) == pts.to_set().len(),
    decreases pts.len(),
{
    vstd::seq_lib::seq_to_set_is_finite(pts);
    if pts.len() == 0 {
        assert(pts.to_set() =~= Set::empty());
    } else {
        let rest = pts.drop_last();
        kinds_are_members(rest);
        vstd::seq_lib::seq_to_set_is_finite(rest);
        assert(pts == rest.push(pts.last()));
        assert forall|v: i64| #[trigger] pts.to_set().contains(v) <==> rest.to_set().insert(
            pts.last(),
        ).contains(v) by {
            if pts.contains(v) {
                let i = choose|i: int| 0 <= i < pts.len() && pts[i] == v;
                if i < rest.len() {
                    assert(rest[i] == v);
                }
            }
            if rest.contains(v) {
                let i = choose|i: int| 0 <= i < rest.len() && rest[i] == v;
                assert(pts[i] == v);
            }
            if v == pts.last() {
                assert(pts[pts.len() - 1] == v);
            }
        }
        assert(pts.to_set() =~= rest.to_set().insert(pts.last()));
    }
}

/// A time is repeated as often as it is in the log.
pub proof fn repeats_are_counted(pts: Seq<i64>, value: i64)
    ensures
        repeats(pts, value) == pts.to_multiset().count(value),
    decreases pts.len(),
{
    pts.to_multiset_ensures();
    if pts.len() == 0 {
        assert(!pts.contains(value));
    } else {
        let rest = pts.drop_last();
        repeats_are_counted(rest, value);
        rest.to_multiset_ensures();
        assert(pts =~= rest.push(pts.last()));
    }
}

/// An operation takes two random numbers, of 31 bits each. The first one says, by
/// what is left when it is divided by three, whether it is a seek or steps, forward
/// or back. The second is the place of a seek; steps are one, two or three.
pub proof fn an_operation_takes_two_numbers(state: u64)
    ensures
        ({
            let first = lcg_next(state);
            let second = lcg_next(first as u64);
            &&& op_from(state).1 == second
            &&& first / 0x2_0000_0000 % 3 == 0 ==> (op_from(state).0 matches Op::Seek(place)
                && place == second / 0x2_0000_0000)
            &&& first / 0x2_0000_0000 % 3 == 1 ==> (op_from(state).0 matches Op::StepF(steps)
                && steps == 1 + second / 0x2_0000_0000 % 3)
            &&& first / 0x2_0000_0000 % 3 == 2 ==> (op_from(state).0 matches Op::StepB(steps)
                && steps == 1 + second / 0x2_0000_0000 % 3)
        }),
{
    the_generator_wraps(state);
    let first = lcg_next(state) as u64;
    the_generator_wraps(first);
}

/// The operations come one after the other: there are as many as were asked for, and
/// each is what the generator gives from the state that the one before it left.
pub proof fn operations_come_one_by_one(state: u64, count: nat)
    ensures
        state_after(state, 0) == state,
        state_after(state, count + 1) == op_from(state_after(state, count)).1,
        ops_from(state, count).len() == count,
        forall|i: int|
            0 <= i < count ==> #[trigger] ops_from(state, count)[i] == op_from(
                state_after(state, i as nat),
            ).0,
    decreases count,
{
    reveal_with_fuel(state_after, 2);
    if count > 0 {
        let next = op_from(state).1;
        let rest = (count - 1) as nat;
        operations_come_one_by_one(next, rest);
        assert forall|i: int| 0 <= i < count implies #[trigger] ops_from(state, count)[i]
            == op_from(state_after(state, i as nat)).0 by {
            if i > 0 {
                assert(ops_from(state, count)[i] == ops_from(next, rest)[i - 1]);
                assert(state_after(state, i as nat) == state_after(next, (i - 1) as nat));
            }
        }
    }
}

/// What a trial asks for.
pub proof fn measures_of_a_trial()
    ensures
        PTS_TOLERANCE_US == 150_000,
        MIN_DISTINCT == 30,
        MIN_PROGRESS_US == 1_500_000,
        MIN_SPAN_US == 1_000_000,
        MIN_RESUMED == 10,
        MIN_RESUMED_US == 200_000,
        MAX_REPEAT == 3,
        LCG_MULTIPLIER == 6364136223846793005,
        LCG_INCREMENT == 1442695040888963407,
{
}

} // verus!

//! Track assembly: turns the per-frame parse results, fed in frame order,
//! into a time-ordered track with a per-segment speed.
//!
//! The assembler keeps the most recent fix and the wall-clock time accrued
//! since it was recorded. Frames arrive one sampling interval apart; a frame
//! without a fix only accrues another interval, while a frame with a fix
//! yields a speed sample computed over the whole accrued duration and resets
//! the accrual. Speed is the planar distance between the two fixes, measured
//! in arc-seconds, scaled by 1000 and divided by the accrued seconds.

use vstd::prelude::*;

use crate::decimal::{max_axis_arcsec, render_template};
use crate::parser::Coordinate;
use crate::strutil::{dec_digits, push_dec_u64, str_to_chars, string_from_chars};

verus! {

/// Floor of the square root, defined by counting up.
pub open spec fn sqrt_floor(n: nat) -> nat
    decreases n,
{
    if n == 0 {
        0
    } else {
        let s = sqrt_floor((n - 1) as nat);
        if (s + 1) * (s + 1) <= n {
            s + 1
        } else {
            s
        }
    }
}

/// `sqrt_floor(n)` is the unique `s` with `s*s <= n < (s+1)*(s+1)`.
pub proof fn lemma_sqrt_floor_bounds(n: nat)
    ensures
        sqrt_floor(n) * sqrt_floor(n) <= n,
        n < (sqrt_floor(n) + 1) * (sqrt_floor(n) + 1),
    decreases n,
{
    if n > 0 {
        lemma_sqrt_floor_bounds((n - 1) as nat);
        let s = sqrt_floor((n - 1) as nat);
        if (s + 1) * (s + 1) <= n {
            assert(sqrt_floor(n) == s + 1);
            assert(n <= (s + 1) * (s + 1)) by {
                assert(n - 1 < (s + 1) * (s + 1));
            }
            assert((s + 1 + 1) * (s + 1 + 1) > (s + 1) * (s + 1)) by (nonlinear_arith);
            assert(sqrt_floor(n) * sqrt_floor(n) <= n);
            assert(n < (sqrt_floor(n) + 1) * (sqrt_floor(n) + 1));
        } else {
            assert(sqrt_floor(n) == s);
            assert(s * s <= n - 1);
            assert(sqrt_floor(n) * sqrt_floor(n) <= n);
            assert(n < (sqrt_floor(n) + 1) * (sqrt_floor(n) + 1));
        }
    } else {
        assert(sqrt_floor(n) == 0);
        assert(sqrt_floor(n) * sqrt_floor(n) <= n) by (nonlinear_arith)
            requires
                n == 0,
                sqrt_floor(n) == 0,
        ;
        assert(n < (sqrt_floor(n) + 1) * (sqrt_floor(n) + 1)) by (nonlinear_arith)
            requires
                n == 0,
                sqrt_floor(n) == 0,
        ;
    }
}

/// Any `r` with `r*r <= n < (r+1)*(r+1)` is the floor square root.
pub proof fn lemma_sqrt_floor_unique(n: nat, r: nat)
    requires
        r * r <= n,
        n < (r + 1) * (r + 1),
    ensures
        r == sqrt_floor(n),
{
    let s = sqrt_floor(n);
    lemma_sqrt_floor_bounds(n);
    if r < s {
        assert((r + 1) * (r + 1) <= s * s) by (nonlinear_arith)
            requires
                r + 1 <= s,
        ;
    }
    if s < r {
        assert((s + 1) * (s + 1) <= r * r) by (nonlinear_arith)
            requires
                s + 1 <= r,
        ;
    }
}

/// Floor square root by binary search.
pub fn isqrt(n: u64) -> (r: u64)
    requires
        n <= 4_000_000_000_000,
    ensures
        r == sqrt_floor(n as nat),
{
    let mut lo: u64 = 0;
    let mut hi: u64 = 2_000_001;
    proof {
        assert((2_000_001 as int) * (2_000_001 as int) > n);
    }
    while lo + 1 < hi
        invariant
            lo < hi <= 2_000_001,
            lo * lo <= n,
            n < hi * hi,
        decreases hi - lo,
    {
        let mid: u64 = lo + (hi - lo) / 2;
        proof {
            assert(lo < mid < hi);
            assert(mid * mid <= 4_000_004_000_001) by (nonlinear_arith)
                requires
                    0 <= mid <= 2_000_001,
            ;
        }
        if mid * mid <= n {
            lo = mid;
        } else {
            hi = mid;
        }
    }
    proof {
        lemma_sqrt_floor_unique(n as nat, lo as nat);
    }
    lo
}

/// Speed between two fixes, as a non-negative integer: the planar distance of
/// the two signed arc-second pairs, scaled by 1000 and divided by the elapsed
/// seconds — thousandths of an arc-second per second.
pub open spec fn spec_speed(prev: (int, int), cur: (int, int), duration_sec: int) -> int
    recommends
        duration_sec > 0,
{
    (sqrt_floor(
        ((cur.0 - prev.0) * (cur.0 - prev.0) + (cur.1 - prev.1) * (cur.1 - prev.1)) as nat,
    ) as int) * 1000 / duration_sec
}

/// One emitted speed measurement: the duration it covers and, when an earlier
/// fix exists to measure from, the speed value.
#[derive(Clone, Copy, Debug, PartialEq, Eq, Structural)]
pub struct SpeedSample {
    /// Seconds accrued since the previous fix (or since the start).
    pub duration_sec: u64,
    /// Thousandths of an arc-second per second; `None` on the first fix.
    pub speed: Option<u64>,
}

/// The track assembler: the single owner of the cross-frame state (the most
/// recent fix and the accrued duration). All frames must pass through one
/// assembler in frame order for the speed reconstruction to be sound.
pub struct TrackAssembler {
    /// Signed arc-second pair of the most recent fix, if any.
    pub last: Option<(i64, i64)>,
    /// Seconds accrued since the most recent fix.
    pub elapsed_sec: u64,
    /// The sampling interval: seconds between consecutive frames.
    pub interval_sec: u32,
}

impl TrackAssembler {
    /// State invariant: a positive sampling interval and a stored fix within
    /// the axis range.
    pub open spec fn wf(self) -> bool {
        &&& self.interval_sec >= 1
        &&& match self.last {
            Some(p) => -max_axis_arcsec() <= p.0 <= max_axis_arcsec() && -max_axis_arcsec() <= p.1
                <= max_axis_arcsec(),
            None => true,
        }
    }

    /// A fresh assembler that has seen no fix.
    pub fn new(interval_sec: u32) -> (r: TrackAssembler)
        requires
            interval_sec >= 1,
        ensures
            r.wf(),
            r.last is None,
            r.elapsed_sec == 0,
            r.interval_sec == interval_sec,
    {
        TrackAssembler { last: None, elapsed_sec: 0, interval_sec }
    }

    /// Consumes one frame's parse results. A frame without a fix accrues one
    /// sampling interval and yields nothing. A frame with fixes takes its
    /// last fix as the current position, yields a sample over the accrued
    /// duration plus one interval — with a speed when an earlier fix exists —
    /// and restarts the accrual.
    pub fn step(&mut self, coords: &Vec<Coordinate>) -> (r: Option<SpeedSample>)
        requires
            old(self).wf(),
            old(self).elapsed_sec + old(self).interval_sec <= u64::MAX,
            forall|k: int| 0 <= k < coords@.len() ==> (#[trigger] coords@[k]).wf(),
        ensures
            final (self).wf(),
            final (self).interval_sec == old(self).interval_sec,
            coords@.len() == 0 ==> {
                &&& r is None
                &&& final (self).last == old(self).last
                &&& final (self).elapsed_sec == old(self).elapsed_sec + old(self).interval_sec
            },
            coords@.len() > 0 ==> {
                let cur = coords@.last().signed_arcsec();
                let duration = old(self).elapsed_sec + old(self).interval_sec;
                &&& final (self).last == Some(
                    (cur.0 as i64, cur.1 as i64),
                )
                &&& final (self).elapsed_sec == 0
                &&& match old(self).last {
                    None => r == Some(SpeedSample { duration_sec: duration as u64, speed: None }),
                    Some(prev) => r == Some(
                        SpeedSample {
                            duration_sec: duration as u64,
                            speed: Some(
                                spec_speed((prev.0 as int, prev.1 as int), cur, duration) as u64,
                            ),
                        },
                    ),
                }
            },
    {
        if coords.len() == 0 {
            self.elapsed_sec = self.elapsed_sec + self.interval_sec as u64;
            return None;
        }
        let cur = coords[coords.len() - 1].signed_arcsec_values();
        let duration: u64 = self.elapsed_sec + self.interval_sec as u64;
        let speed: Option<u64> = match self.last {
            Some(prev) => Some(speed_value(prev, cur, duration)),
            None => None,
        };
        proof {
            assert(coords@[coords@.len() - 1] == coords@.last());
        }
        self.last = Some(cur);
        self.elapsed_sec = 0;
        Some(SpeedSample { duration_sec: duration, speed })
    }
}

/// Executable speed between two signed arc-second pairs over a duration.
fn speed_value(prev: (i64, i64), cur: (i64, i64), duration_sec: u64) -> (r: u64)
    requires
        duration_sec >= 1,
        -max_axis_arcsec() <= prev.0 <= max_axis_arcsec(),
        -max_axis_arcsec() <= prev.1 <= max_axis_arcsec(),
        -max_axis_arcsec() <= cur.0 <= max_axis_arcsec(),
        -max_axis_arcsec() <= cur.1 <= max_axis_arcsec(),
    ensures
        r == spec_speed((prev.0 as int, prev.1 as int), (cur.0 as int, cur.1 as int), duration_sec as int),
{
    let dlat: i64 = cur.0 - prev.0;
    let dlon: i64 = cur.1 - prev.1;
    proof {
        assert(dlat * dlat <= 929894 * 929894) by (nonlinear_arith)
            requires
                -929894 <= dlat <= 929894,
        ;
        assert(dlon * dlon <= 929894 * 929894) by (nonlinear_arith)
            requires
                -929894 <= dlon <= 929894,
        ;
        assert(dlat * dlat >= 0) by (nonlinear_arith);
        assert(dlon * dlon >= 0) by (nonlinear_arith);
    }
    let sq: u64 = (dlat * dlat) as u64 + (dlon * dlon) as u64;
    let dist: u64 = isqrt(sq);
    proof {
        lemma_sqrt_floor_bounds(sq as nat);
        assert(sqrt_floor(sq as nat) * sqrt_floor(sq as nat) <= 929894 * 929894 * 2);
        assert(sqrt_floor(sq as nat) <= 1_315_070) by (nonlinear_arith)
            requires
                sqrt_floor(sq as nat) * sqrt_floor(sq as nat) <= 929894 * 929894 * 2,
        ;
    }
    dist * 1000 / duration_sec
}

/// One coordinate rendered through the output template.
pub open spec fn spec_rendered(c: Coordinate, template: Seq<char>) -> Seq<char> {
    render_template(template, c.spec_lat_string(), c.spec_lon_string())
}

/// The coordinates of one frame rendered through the template and joined with
/// `|`, starting at index `i`.
pub open spec fn spec_joined_from(coords: Seq<Coordinate>, template: Seq<char>, i: int) -> Seq<
    char,
>
    decreases coords.len() - i,
{
    if i < 0 || i >= coords.len() {
        Seq::<char>::empty()
    } else if i == coords.len() - 1 {
        spec_rendered(coords[i], template)
    } else {
        spec_rendered(coords[i], template) + seq!['|'] + spec_joined_from(coords, template, i + 1)
    }
}

/// All coordinates of one frame rendered through the template, joined with
/// `|` into one output body.
pub open spec fn spec_joined(coords: Seq<Coordinate>, template: Seq<char>) -> Seq<char> {
    spec_joined_from(coords, template, 0)
}

/// Renders every coordinate of one frame through the output template and
/// joins them with `|` into the frame's output body.
pub fn render_track_line(coords: &Vec<Coordinate>, template: &str) -> (r: String)
    requires
        forall|k: int| 0 <= k < coords@.len() ==> (#[trigger] coords@[k]).wf(),
    ensures
        r@ == spec_joined(coords@, template@),
{
    let mut out: Vec<char> = Vec::new();
    let mut i: usize = 0;
    while i < coords.len()
        invariant
            i <= coords@.len(),
            forall|k: int| 0 <= k < coords@.len() ==> (#[trigger] coords@[k]).wf(),
            i == 0 ==> out@ == Seq::<char>::empty(),
            0 < i < coords@.len() ==> spec_joined(coords@, template@) == out@ + seq!['|']
                + spec_joined_from(coords@, template@, i as int),
            i > 0 && i == coords@.len() ==> spec_joined(coords@, template@) == out@,
        decreases coords@.len() - i,
    {
        let ghost prev = out@;
        if i > 0 {
            out.push('|');
        }
        let piece = coords[i].to_decimal_with_format(template);
        let piece_chars = str_to_chars(piece.as_str());
        let mut k: usize = 0;
        let ghost mid = out@;
        proof {
            assert(out@ =~= mid + piece_chars@.subrange(0, 0));
        }
        while k < piece_chars.len()
            invariant
                k <= piece_chars@.len(),
                out@ == mid + piece_chars@.subrange(0, k as int),
            decreases piece_chars@.len() - k,
        {
            out.push(piece_chars[k]);
            proof {
                assert(out@ =~= mid + piece_chars@.subrange(0, k as int + 1));
            }
            k = k + 1;
        }
        proof {
            assert(piece_chars@.subrange(0, piece_chars@.len() as int) =~= piece_chars@);
            assert(out@ =~= mid + spec_rendered(coords@[i as int], template@));
            if i == 0 {
                if i as int == coords@.len() - 1 {
                    assert(spec_joined(coords@, template@) =~= out@);
                } else {
                    assert(spec_joined(coords@, template@) =~= out@ + seq!['|']
                        + spec_joined_from(coords@, template@, i as int + 1));
                }
            } else {
                assert(mid =~= prev + seq!['|']);
                if i as int == coords@.len() - 1 {
                    assert(spec_joined(coords@, template@) =~= out@);
                } else {
                    assert(spec_joined(coords@, template@) =~= out@ + seq!['|']
                        + spec_joined_from(coords@, template@, i as int + 1));
                }
            }
        }
        i = i + 1;
    }
    proof {
        if coords@.len() == 0 {
            assert(spec_joined(coords@, template@) =~= Seq::<char>::empty());
        }
        assert(out@ =~= spec_joined(coords@, template@));
    }
    string_from_chars(&out)
}

/// One whole output line: when a recording start time is known, the frame's
/// absolute time, a space, the speed (a number, or `-` before the first
/// measured segment), then `| ` and the frame's body; without a start time,
/// the body alone.
pub open spec fn spec_output_line(
    time_text: Option<Seq<char>>,
    speed: Option<u64>,
    body: Seq<char>,
) -> Seq<char> {
    match time_text {
        None => body,
        Some(t) => t + seq![' '] + (match speed {
            None => seq!['-'],
            Some(v) => dec_digits(v as nat),
        }) + seq!['|', ' '] + body,
    }
}

/// Assembles one output line; see `spec_output_line`.
pub fn format_output_line(time_text: Option<&String>, speed: Option<u64>, body: &str) -> (r:
    String)
    ensures
        r@ == spec_output_line(
            match time_text {
                Some(t) => Some(t@),
                None => None,
            },
            speed,
            body@,
        ),
{
    let body_chars = str_to_chars(body);
    match time_text {
        None => string_from_chars(&body_chars),
        Some(t) => {
            let mut out = str_to_chars(t.as_str());
            out.push(' ');
            match speed {
                None => out.push('-'),
                Some(v) => push_dec_u64(&mut out, v),
            }
            out.push('|');
            out.push(' ');
            let ghost head = out@;
            let mut k: usize = 0;
            proof {
                assert(out@ =~= head + body_chars@.subrange(0, 0));
            }
            while k < body_chars.len()
                invariant
                    k <= body_chars@.len(),
                    out@ == head + body_chars@.subrange(0, k as int),
                decreases body_chars@.len() - k,
            {
                out.push(body_chars[k]);
                proof {
                    assert(out@ =~= head + body_chars@.subrange(0, k as int + 1));
                }
                k = k + 1;
            }
            proof {
                assert(out@ =~= spec_output_line(Some(t@), speed, body@));
            }
            string_from_chars(&out)
        },
    }
}

/// Reorders per-frame results back into frame order. Workers process frames
/// concurrently and finish out of order; the track assembler's speed and time
/// reconstruction is only sound when it sees every frame exactly once, in
/// sequence order. One sequencer stands between the parallel workers and the
/// single assembler: results are pushed as they complete, and come back out
/// in strictly increasing sequence order.
pub struct Sequencer {
    /// The next sequence index to release.
    pub next: u64,
    /// Results that arrived ahead of their turn.
    pub pending: Vec<(u64, Vec<Coordinate>)>,
}

impl Sequencer {
    /// State invariant: everything pending is still to be released, with no
    /// sequence index held twice.
    pub open spec fn wf(self) -> bool {
        &&& forall|i: int| 0 <= i < self.pending@.len() ==> (#[trigger] self.pending@[i]).0 >= self.next
        &&& forall|i: int, j: int|
            0 <= i < j < self.pending@.len() ==> self.pending@[i].0 != self.pending@[j].0
    }

    /// A fresh sequencer expecting the given first sequence index.
    pub fn new(first_index: u64) -> (r: Sequencer)
        ensures
            r.wf(),
            r.next == first_index,
            r.pending@.len() == 0,
    {
        Sequencer { next: first_index, pending: Vec::new() }
    }

    /// Whether a result for this sequence index is already pending.
    pub fn holds_index(&self, index: u64) -> (r: bool)
        ensures
            r == exists|i: int| 0 <= i < self.pending@.len() && (#[trigger] self.pending@[i]).0 == index,
    {
        let mut i: usize = 0;
        while i < self.pending.len()
            invariant
                i <= self.pending@.len(),
                forall|j: int| 0 <= j < i ==> (#[trigger] self.pending@[j]).0 != index,
            decreases self.pending@.len() - i,
        {
            if self.pending[i].0 == index {
                return true;
            }
            i = i + 1;
        }
        false
    }

    /// Stores one frame's results until its turn. The result must belong to a
    /// frame not yet released and not already stored.
    pub fn push(&mut self, index: u64, coords: Vec<Coordinate>)
        requires
            old(self).wf(),
            index >= old(self).next,
            !exists|i: int|
                0 <= i < old(self).pending@.len() && (#[trigger] old(self).pending@[i]).0 == index,
        ensures
            final (self).wf(),
            final (self).next == old(self).next,
            final (self).pending@ == old(self).pending@.push((index, coords)),
    {
        self.pending.push((index, coords));
    }

    /// Releases the next frame's results if they have arrived: removes the
    /// entry carrying the next sequence index and advances past it. `None`
    /// exactly when that frame is still outstanding, leaving the state
    /// unchanged.
    pub fn pop_ready(&mut self) -> (r: Option<Vec<Coordinate>>)
        requires
            old(self).wf(),
            old(self).next < u64::MAX,
        ensures
            final (self).wf(),
            match r {
                Some(coords) => {
                    &&& final (self).next == old(self).next + 1
                    &&& exists|j: int|
                        0 <= j < old(self).pending@.len() && old(self).pending@[j] == (
                        old(self).next,
                        coords,
                        ) && final (self).pending@ == old(self).pending@.remove(j)
                },
                None => {
                    &&& final (self).next == old(self).next
                    &&& final (self).pending@ == old(self).pending@
                    &&& !exists|i: int|
                        0 <= i < old(self).pending@.len() && (#[trigger] old(self).pending@[i]).0
                            == old(self).next
                },
            },
    {
        let target: u64 = self.next;
        let mut i: usize = 0;
        while i < self.pending.len()
            invariant
                i <= self.pending@.len(),
                target == old(self).next,
                self.next == old(self).next,
                self.pending@ == old(self).pending@,
                old(self).wf(),
                old(self).next < u64::MAX,
                forall|j: int| 0 <= j < i ==> (#[trigger] self.pending@[j]).0 != target,
            decreases self.pending@.len() - i,
        {
            if self.pending[i].0 == target {
                let ghost pre = self.pending@;
                let (_, coords) = self.pending.remove(i);
                self.next = target + 1;
                proof {
                    assert(self.pending@ == pre.remove(i as int));
                    assert forall|a: int|
                        0 <= a < self.pending@.len() implies (#[trigger] self.pending@[a]).0
                        >= self.next by {
                        if a < i {
                            assert(self.pending@[a] == pre[a]);
                            assert(pre[a].0 != target);
                        } else {
                            assert(self.pending@[a] == pre[a + 1]);
                            assert(pre[i as int].0 != pre[a + 1].0);
                        }
                    }
                    assert forall|a: int, b: int|
                        0 <= a < b < self.pending@.len() implies self.pending@[a].0
                        != self.pending@[b].0 by {
                        let a0 = if a < i {
                            a
                        } else {
                            a + 1
                        };
                        let b0 = if b < i {
                            b
                        } else {
                            b + 1
                        };
                        assert(self.pending@[a] == pre[a0]);
                        assert(self.pending@[b] == pre[b0]);
                        assert(pre[a0].0 != pre[b0].0);
                    }
                }
                return Some(coords);
            }
            i = i + 1;
        }
        None
    }
}

/// The accrued duration after `k` further frames without a fix, starting from
/// `elapsed` seconds already accrued.
pub open spec fn accrue_no_fix(elapsed: int, interval: int, k: nat) -> int
    decreases k,
{
    if k == 0 {
        elapsed
    } else {
        accrue_no_fix(elapsed + interval, interval, (k - 1) as nat)
    }
}

/// Accrual over `k` frames adds `k` intervals.
pub proof fn lemma_accrue_no_fix(elapsed: int, interval: int, k: nat)
    ensures
        accrue_no_fix(elapsed, interval, k) == elapsed + k * interval,
    decreases k,
{
    if k > 0 {
        lemma_accrue_no_fix(elapsed + interval, interval, (k - 1) as nat);
        assert(accrue_no_fix(elapsed, interval, k) == accrue_no_fix(
            elapsed + interval,
            interval,
            (k - 1) as nat,
        ));
        assert(elapsed + interval + ((k - 1) as nat) * interval == elapsed + k * interval) by (
        nonlinear_arith)
            requires
                k >= 1,
        ;
    } else {
        assert(accrue_no_fix(elapsed, interval, 0) == elapsed);
        assert(k * interval == 0) by (nonlinear_arith)
            requires
                k == 0,
        ;
    }
}

/// Speed accumulation law: when `k` consecutive frames produce no fix between
/// two frames that do, the duration the speed calculation uses — the accrual
/// left by those frames plus the final interval — is exactly `(k + 1)` times
/// the sampling interval.
pub proof fn lemma_speed_duration_accumulation(interval: int, k: nat)
    ensures
        accrue_no_fix(0, interval, k) + interval == (k + 1) * interval,
{
    lemma_accrue_no_fix(0, interval, k);
    assert(k * interval + interval == (k + 1) * interval) by (nonlinear_arith);
}

} // verus!

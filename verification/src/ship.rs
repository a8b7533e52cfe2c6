//! The craft and the terrain.
//!
//! `Ship` is a rigid isoceles triangle of three point masses with a set of
//! active throttles; `Land` is a sliding window of terrain vertices,
//! strictly increasing in x, extended procedurally as queries approach an
//! edge and trimmed with hysteresis once they move away.

use crate::arith::{clamp_i64, lemma_tdiv_rem, sclamp, tdiv, SCALE};
use crate::geom::{
    len_of, lemma_unit_bounds, lemma_unit_norm_sq, proj_of, unit_of, Line, Point, Vector,
};
use crate::inertia::Inertia;
use vstd::math::abs;
use vstd::prelude::*;

verus! {

/// Largest coordinate magnitude of a well-formed ship; integration clamps
/// positions back into this range, which real trajectories never leave.
pub const SHIP_LIMIT: i64 = 1_000_000_000_000_000;

/// Largest query position the terrain store accepts.
pub const QUERY_LIMIT: i64 = 10_000_000_000_000_000;

/// Largest coordinate magnitude of a stored terrain vertex.
pub const LAND_LIMIT: i64 = 10_001_000_000_000_000;

/// Expansion radius: the window always covers the query by this margin.
pub const W_EXPAND: i64 = 500_000_000;

/// Shrink radius; larger than the expansion radius, so the window keeps a
/// hysteresis band and does not thrash when the query oscillates.
pub const W_SHRINK: i64 = 800_000_000;

/// Bounds of the x step between consecutive terrain vertices.
pub const DX_MIN: i64 = 10_000_000;

pub const DX_MAX: i64 = 30_000_000;

/// Bound of the y step between consecutive terrain vertices.
pub const DY_MAX: i64 = 30_000_000;

/// The window policy is consistent: the shrink radius exceeds the
/// expansion radius, so trimming never removes the cover that expansion
/// just built — the hysteresis band that keeps the window from
/// thrashing when queries oscillate near an edge.
pub proof fn lemma_hysteresis_band()
    ensures
        W_SHRINK > W_EXPAND,
{
}

/// One of the three thrust sources.
#[derive(Clone, Copy, PartialEq, Eq, Structural, Debug)]
pub enum Throttle {
    Left,
    Bottom,
    Right,
}

/// A terrain vertex within storable range.
pub open spec fn pt_ok(p: Point) -> bool {
    abs(p.0 as int) <= LAND_LIMIT && abs(p.1 as int) <= LAND_LIMIT
}

/// Two consecutive terrain vertices: x strictly increases within the
/// generation bounds, and y moves by at most the generation bound.
pub open spec fn seg_ok(a: Point, b: Point) -> bool {
    DX_MIN <= b.0 - a.0 <= DX_MAX && abs(b.1 - a.1) <= DY_MAX
}

/// A segment the collision handler may be given: a well-formed pair of
/// stored terrain vertices.
pub open spec fn ground_seg_ok(g: Line) -> bool {
    pt_ok(g.0) && pt_ok(g.1) && seg_ok(g.0, g.1)
}

/// `q` is `p` after the ground test against segment `g`: a point below
/// the projected ground height snaps onto the projection, any other point
/// is untouched.
pub open spec fn collided(p: Point, g: Line, q: Point) -> bool {
    let pr = proj_of(g, p);
    if (p.1 as int) < pr.1 {
        (q.0 as int, q.1 as int) == pr
    } else {
        q == p
    }
}

/// What one collision pass certifies: some well-formed ground segment
/// whose x range contains the point decided the outcome.
pub open spec fn collision_evidence(p: Point, g: Line, q: Point) -> bool {
    ground_seg_ok(g) && g.0.0 <= p.0 <= g.1.0 && collided(p, g, q)
}

/// `g` is one stored ground segment of the window `w`: an adjacent pair
/// of its vertices.
pub open spec fn seg_of_window(g: Line, w: Seq<Point>) -> bool {
    exists|i: int| 0 <= i < w.len() - 1 && g.0 == #[trigger] w[i] && g.1 == w[i + 1]
}

/// `a` is a contiguous run of `b`.
pub open spec fn subwindow(a: Seq<Point>, b: Seq<Point>) -> bool {
    exists|i: int, j: int|
        0 <= i <= j <= b.len() && j - i == a.len() && a == #[trigger] b.subrange(i, j)
}

/// The window-maintenance relation: the old and the new window are both
/// contiguous runs of one common window (the old one extended at its two
/// ends), so every vertex kept across the operation is unchanged in value
/// and in relative order.
pub open spec fn window_maintained(a: Seq<Point>, b: Seq<Point>) -> bool {
    exists|w: Seq<Point>| #[trigger] subwindow(a, w) && subwindow(b, w)
}

/// One terrain query, in full: the window `w0` became `w1` by window
/// maintenance alone, `w1` is well formed and covers `x` with the
/// expansion margin, and `g` is the stored segment of `w1` whose x range
/// contains `x`.
pub open spec fn ground_query(w0: Seq<Point>, x: int, w1: Seq<Point>, g: Line) -> bool {
    &&& window_wf(w1)
    &&& window_maintained(w0, w1)
    &&& seg_of_window(g, w1)
    &&& g.0.0 <= x <= g.1.0
    &&& w1[0].0 <= x - W_EXPAND
    &&& w1[w1.len() - 1].0 >= x + W_EXPAND
}

/// A well-formed window: at least two vertices, every vertex in storable
/// range, and consecutive vertices within the step bounds.
pub open spec fn window_wf(w: Seq<Point>) -> bool {
    &&& w.len() >= 2
    &&& forall|i: int| 0 <= i < w.len() ==> pt_ok(#[trigger] w[i])
    &&& forall|i: int, j: int|
        0 <= i && i + 1 == j && j < w.len() ==> seg_ok(#[trigger] w[i], #[trigger] w[j])
}

/// The windowed terrain store: vertices sorted by strictly increasing x,
/// each consecutive pair one ground segment.
pub struct Land {
    heights: Vec<Point>,
}

impl View for Land {
    type V = Seq<Point>;

    closed spec fn view(&self) -> Seq<Point> {
        self.heights@
    }
}

/// Terrain monotonicity: in a well-formed window the stored vertex
/// x-coordinates are strictly increasing, between any two positions, not
/// just adjacent ones.  Every terrain operation preserves `wf`, so this
/// holds across any sequence of queries.
pub proof fn lemma_window_sorted(land: Land, i: int, j: int)
    requires
        land.wf(),
        0 <= i < j < land@.len(),
    ensures
        land@[i].0 < land@[j].0,
    decreases j - i,
{
    if j == i + 1 {
        assert(seg_ok(land@[i], land@[j]));
    } else {
        lemma_window_sorted(land, i, j - 1);
        assert(seg_ok(land@[j - 1], land@[j]));
    }
}

/// Relies on rand: `Uniform::from(lo..hi)` panics unless `lo < hi`, and a
/// `sample` drawn from it through `thread_rng` lies in `[lo, hi)`.
#[verifier::external_body]
fn sample_u64(lo: u64, hi: u64) -> (r: u64)
    requires
        lo < hi,
    ensures
        lo <= r < hi,
{
    let mut rng = rand::thread_rng();
    let between = rand::distributions::Uniform::from(lo..hi);
    rand::distributions::Distribution::sample(&between, &mut rng)
}

impl Land {
    /// The window is well formed.
    pub open spec fn wf(self) -> bool {
        window_wf(self@)
    }

    /// A fresh window: one flat segment at thirty units below the origin.
    pub fn new() -> (r: Land)
        ensures
            r.wf(),
            r@ == seq![Point(-15_000_000i64, -30_000_000i64), Point(15_000_000i64, -30_000_000i64)],
    {
        let mut heights: Vec<Point> = Vec::new();
        heights.push(Point(-15_000_000, -30_000_000));
        heights.push(Point(15_000_000, -30_000_000));
        proof {
            assert(heights@ =~= seq![
                Point(-15_000_000i64, -30_000_000i64),
                Point(15_000_000i64, -30_000_000i64),
            ]);
        }
        Land { heights }
    }

    /// A freshly drawn vertex step: x forward by ten to thirty units,
    /// y by up to thirty units either way.
    fn new_height() -> (r: Point)
        ensures
            DX_MIN <= r.0 <= DX_MAX,
            abs(r.1 as int) <= DY_MAX,
    {
        let xs: u64 = sample_u64(1000, 3000);
        let ys: u64 = sample_u64(0, 6000);
        Point((xs as i64) * 10_000, ((ys as i64) - 3000) * 10_000)
    }

    /// Applies the constant gravity force to one point mass.
    pub fn apply_gravity(&mut self, point: &mut Inertia)
        requires
            old(point).prev.1 + 32_000 <= i64::MAX,
        ensures
            final(self)@ == old(self)@,
            final(point).position == old(point).position,
            final(point).prev.0 == old(point).prev.0,
            final(point).prev.1 == old(point).prev.1 + 32_000,
    {
        proof {
            assert(tdiv(0, 10) == 0);
            assert(tdiv(-320_000, 10) == -32_000);
        }
        point.force(Ship::gravity());
    }

    /// Snaps `pos` up onto the ground if it lies below the terrain
    /// projection at its x; leaves it untouched otherwise.  The deciding
    /// segment is a stored segment of the final window, which itself came
    /// from the old one by window maintenance alone.
    pub fn handle_collision(&mut self, pos: &mut Point)
        requires
            old(self).wf(),
            abs(old(pos).0 as int) <= QUERY_LIMIT,
            abs(old(pos).1 as int) <= QUERY_LIMIT,
        ensures
            final(self).wf(),
            exists|g: Line|
                #[trigger] ground_query(old(self)@, old(pos).0 as int, final(self)@, g)
                    && collision_evidence(*old(pos), g, *final(pos)),
            abs(final(pos).0 as int) <= 6 * crate::geom::COORD_LIMIT,
            abs(final(pos).1 as int) <= 6 * crate::geom::COORD_LIMIT,
    {
        let ground_line = self.get(pos.0);
        let ground_hit = ground_line.projection(*pos);
        if pos.1 < ground_hit.1 {
            *pos = ground_hit;
        }
        proof {
            assert(ground_query(old(self)@, old(pos).0 as int, final(self)@, ground_line)
                && collision_evidence(*old(pos), ground_line, *final(pos)));
        }
    }

    /// Moves the window so that it covers `x` by the expansion radius on
    /// both sides, then trims it back to the (larger) shrink radius.
    fn cover(&mut self, x: i64)
        requires
            old(self).wf(),
            abs(x as int) <= QUERY_LIMIT,
        ensures
            final(self).wf(),
            window_maintained(old(self)@, final(self)@),
            final(self)@[0].0 <= x - W_EXPAND,
            final(self)@[final(self)@.len() - 1].0 >= x + W_EXPAND,
            final(self)@[0].0 >= x - W_SHRINK || final(self)@.len() == 2,
            final(self)@[final(self)@.len() - 1].0 <= x + W_SHRINK || final(self)@.len() == 2,
    {
        self.expand_min(x - W_EXPAND);
        let ghost v1 = self@;
        self.expand_max(x + W_EXPAND);
        let ghost w = self@;
        proof {
            assert(self@[0].0 <= x - W_EXPAND);
            assert(self@[self@.len() - 1].0 >= x + W_EXPAND);
            // The original window is a contiguous run of the fully
            // expanded one.
            let k1 = (v1.len() - old(self)@.len()) as int;
            assert(old(self)@ =~= w.subrange(k1, k1 + old(self)@.len()));
            assert(subwindow(old(self)@, w));
        }
        self.shrink_min(x - W_SHRINK);
        let ghost v3 = self@;
        proof {
            assert(self@[0].0 <= x - W_EXPAND);
            assert(self@[self@.len() - 1].0 >= x + W_EXPAND);
        }
        self.shrink_max(x + W_SHRINK);
        proof {
            // Both trims cut from the ends of the expanded window, so the
            // final window is a contiguous run of it too.
            let k3 = (w.len() - v3.len()) as int;
            assert(self@ =~= w.subrange(k3, k3 + self@.len()));
            assert(subwindow(self@, w));
            assert(window_maintained(old(self)@, self@));
        }
    }

    /// The ground segment whose x range contains `x`.  Before searching,
    /// the window is moved to cover `x` with a safety margin.
    pub fn get(&mut self, x: i64) -> (r: Line)
        requires
            old(self).wf(),
            abs(x as int) <= QUERY_LIMIT,
        ensures
            final(self).wf(),
            r.0.0 <= x <= r.1.0,
            ground_seg_ok(r),
            seg_of_window(r, final(self)@),
            window_maintained(old(self)@, final(self)@),
            final(self)@[0].0 <= x - W_EXPAND,
            final(self)@[final(self)@.len() - 1].0 >= x + W_EXPAND,
            final(self)@[0].0 >= x - W_SHRINK || final(self)@.len() == 2,
            final(self)@[final(self)@.len() - 1].0 <= x + W_SHRINK || final(self)@.len() == 2,
    {
        self.cover(x);
        let idx = Self::binary_search(&self.heights, x);
        let n = self.heights.len();
        proof {
            assert(idx + 1 < n);
        }
        let ground = Line(self.heights[idx], self.heights[idx + 1]);
        proof {
            let j = idx as int;
            assert(0 <= j < self@.len() - 1 && ground.0 == self@[j] && ground.1 == self@[j + 1]);
        }
        ground
    }

    /// Every ground segment of the current window, in order.
    pub fn all(&self) -> (r: Vec<Line>)
        requires
            self.wf(),
        ensures
            r@.len() == self@.len() - 1,
            forall|i: int|
                0 <= i < r@.len() ==> #[trigger] r@[i] == Line(self@[i], self@[i + 1]),
    {
        let mut segments: Vec<Line> = Vec::new();
        let mut idx: usize = 1;
        while idx < self.heights.len()
            invariant
                1 <= idx <= self.heights@.len(),
                self.wf(),
                segments@.len() == idx - 1,
                forall|i: int|
                    0 <= i < segments@.len() ==> #[trigger] segments@[i] == Line(
                        self@[i],
                        self@[i + 1],
                    ),
            decreases self.heights@.len() - idx,
        {
            segments.push(Line(self.heights[idx - 1], self.heights[idx]));
            idx = idx + 1;
        }
        segments
    }

    /// Prepends freshly drawn vertices until the first one is at or below
    /// `min`.
    fn expand_min(&mut self, min: i64)
        requires
            old(self).wf(),
            min >= -(QUERY_LIMIT + W_EXPAND),
        ensures
            final(self).wf(),
            final(self)@[0].0 <= min,
            final(self)@.len() >= old(self)@.len(),
            final(self)@.subrange(
                (final(self)@.len() - old(self)@.len()) as int,
                final(self)@.len() as int,
            ) == old(self)@,
            final(self)@[final(self)@.len() - 1] == old(self)@[old(self)@.len() - 1],
    {
        while self.heights[0].0 > min
            invariant
                self.wf(),
                min >= -(QUERY_LIMIT + W_EXPAND),
                self@.len() >= old(self)@.len(),
                self@.subrange(
                    (self@.len() - old(self)@.len()) as int,
                    self@.len() as int,
                ) == old(self)@,
                self@[self@.len() - 1] == old(self)@[old(self)@.len() - 1],
            decreases vstd::math::max(self.heights@[0].0 - min, 0),
        {
            let delta = Self::new_height();
            let first = self.heights[0];
            let ghost pre = self.heights@;
            let ny = clamp_i64(first.1 + delta.1, LAND_LIMIT);
            let nh = Point(first.0 - delta.0, ny);
            self.heights.insert(0, nh);
            proof {
                assert(self.heights@[0] == nh);
                let k = (self@.len() - old(self)@.len()) as int;
                assert(self@.subrange(k, self@.len() as int) =~= pre.subrange(
                    k - 1,
                    pre.len() as int,
                ));
                assert(self.heights@[self@.len() - 1] == old(self)@[old(self)@.len() - 1]);
            }
        }
    }

    /// Appends freshly drawn vertices until the last one is at or above
    /// `max`.
    fn expand_max(&mut self, max: i64)
        requires
            old(self).wf(),
            max <= QUERY_LIMIT + W_EXPAND,
        ensures
            final(self).wf(),
            final(self)@[final(self)@.len() - 1].0 >= max,
            final(self)@.len() >= old(self)@.len(),
            final(self)@.subrange(0, old(self)@.len() as int) == old(self)@,
            final(self)@[0] == old(self)@[0],
    {
        while self.heights[self.heights.len() - 1].0 < max
            invariant
                self.wf(),
                max <= QUERY_LIMIT + W_EXPAND,
                self@.len() >= old(self)@.len(),
                self@.subrange(0, old(self)@.len() as int) == old(self)@,
                self@[0] == old(self)@[0],
            decreases vstd::math::max(max - self.heights@[self.heights@.len() - 1].0, 0),
        {
            let delta = Self::new_height();
            let last = self.heights[self.heights.len() - 1];
            let ghost pre = self.heights@;
            let ny = clamp_i64(last.1 + delta.1, LAND_LIMIT);
            let nh = Point(last.0 + delta.0, ny);
            self.heights.push(nh);
            proof {
                assert(self.heights@[self@.len() - 1] == nh);
                assert(self@.subrange(0, old(self)@.len() as int) =~= pre.subrange(
                    0,
                    old(self)@.len() as int,
                ));
            }
        }
    }

    /// Drops leading vertices strictly below `min`, never below two
    /// vertices.
    fn shrink_min(&mut self, min: i64)
        requires
            old(self).wf(),
        ensures
            final(self).wf(),
            final(self)@.len() <= old(self)@.len(),
            final(self)@ == old(self)@.subrange(
                (old(self)@.len() - final(self)@.len()) as int,
                old(self)@.len() as int,
            ),
            final(self)@.len() < old(self)@.len() ==> old(self)@[(old(self)@.len()
                - final(self)@.len() - 1) as int].0 < min,
            final(self)@[final(self)@.len() - 1] == old(self)@[old(self)@.len() - 1],
            final(self)@[0].0 >= min || final(self)@.len() == 2,
            final(self)@[0].0 <= old(self)@[0].0 || final(self)@[0].0 < min + DX_MAX,
    {
        while self.heights.len() > 2 && self.heights[0].0 < min
            invariant
                self.wf(),
                self@.len() <= old(self)@.len(),
                self@ == old(self)@.subrange(
                    (old(self)@.len() - self@.len()) as int,
                    old(self)@.len() as int,
                ),
                self@.len() < old(self)@.len() ==> old(self)@[(old(self)@.len() - self@.len()
                    - 1) as int].0 < min,
                self@[self@.len() - 1] == old(self)@[old(self)@.len() - 1],
                self@[0].0 <= old(self)@[0].0 || self@[0].0 < min + DX_MAX,
            decreases self.heights@.len(),
        {
            let ghost pre = self.heights@;
            self.heights.remove(0);
            proof {
                assert(self@ =~= old(self)@.subrange(
                    (old(self)@.len() - self@.len()) as int,
                    old(self)@.len() as int,
                ));
            }
        }
    }

    /// Drops trailing vertices strictly above `max`, never below two
    /// vertices.
    fn shrink_max(&mut self, max: i64)
        requires
            old(self).wf(),
        ensures
            final(self).wf(),
            final(self)@.len() <= old(self)@.len(),
            final(self)@ == old(self)@.subrange(0, final(self)@.len() as int),
            final(self)@.len() < old(self)@.len() ==> old(self)@[final(self)@.len() as int].0
                > max,
            final(self)@[0] == old(self)@[0],
            final(self)@[final(self)@.len() - 1].0 <= max || final(self)@.len() == 2,
            final(self)@[final(self)@.len() - 1].0 >= old(self)@[old(self)@.len() - 1].0
                || final(self)@[final(self)@.len() - 1].0 > max - DX_MAX,
    {
        while self.heights.len() > 2 && self.heights[self.heights.len() - 1].0 > max
            invariant
                self.wf(),
                self@.len() <= old(self)@.len(),
                self@ == old(self)@.subrange(0, self@.len() as int),
                self@.len() < old(self)@.len() ==> old(self)@[self@.len() as int].0 > max,
                self@[0] == old(self)@[0],
                self@[self@.len() - 1].0 >= old(self)@[old(self)@.len() - 1].0 || self@[self@.len()
                    - 1].0 > max - DX_MAX,
            decreases self.heights@.len(),
        {
            self.heights.pop();
            proof {
                assert(self@ =~= old(self)@.subrange(0, self@.len() as int));
            }
        }
    }

    /// Halves the candidate range until exactly one segment remains.
    fn binary_search(heights: &Vec<Point>, x: i64) -> (r: usize)
        requires
            heights@.len() >= 2,
            heights@[0].0 < x,
            heights@[heights@.len() - 1].0 > x,
        ensures
            r + 1 < heights@.len(),
            heights@[r as int].0 < x,
            heights@[r + 1].0 >= x,
    {
        let mut lo: usize = 0;
        let mut hi: usize = heights.len() - 1;
        while hi - lo > 1
            invariant
                0 <= lo < hi < heights@.len(),
                heights@[lo as int].0 < x,
                heights@[hi as int].0 >= x,
            decreases hi - lo,
        {
            let middle_idx = lo + (hi - lo) / 2;
            if heights[middle_idx].0 < x {
                lo = middle_idx;
            } else {
                hi = middle_idx;
            }
        }
        lo
    }
}


/// The purely numeric state of the craft's three point masses: `p` a
/// position, `q` the previous position; `0` and `1` the bottom points,
/// `t` the top point.
pub ghost struct ShipState {
    pub p0: (int, int),
    pub q0: (int, int),
    pub p1: (int, int),
    pub q1: (int, int),
    pub pt: (int, int),
    pub qt: (int, int),
}

/// Both components within `lim`.
pub open spec fn pt_in(v: (int, int), lim: int) -> bool {
    abs(v.0) <= lim && abs(v.1) <= lim
}

/// One previous position after the gravity impulse: gravity is constant,
/// downward, and scaled by the step duration.
pub open spec fn grav_q(q: (int, int)) -> (int, int) {
    (q.0, q.1 + 32_000)
}

/// One previous position after a force impulse `f`.
pub open spec fn forced_q(q: (int, int), f: (int, int)) -> (int, int) {
    (q.0 - tdiv(f.0, 10), q.1 - tdiv(f.1, 10))
}

/// The craft after gravity hits all three points.
pub open spec fn grav_step(m: ShipState) -> ShipState {
    ShipState { q0: grav_q(m.q0), q1: grav_q(m.q1), qt: grav_q(m.qt), ..m }
}

/// The craft's origin: the midpoint of the two bottom points.
pub open spec fn origin_of(m: ShipState) -> (int, int) {
    (tdiv(m.p0.0 + m.p1.0, 2), tdiv(m.p0.1 + m.p1.1, 2))
}

/// The two redundant direction estimates: the unit vector from origin to
/// top, and the rotated unit vector between the bottom points.
pub open spec fn dir_estimates(m: ShipState) -> ((int, int), (int, int)) {
    let o = origin_of(m);
    let d1 = unit_of(m.pt.0 - o.0, m.pt.1 - o.1);
    let u = unit_of(m.p0.0 - m.p1.0, m.p0.1 - m.p1.1);
    (d1, (u.1, -u.0))
}

/// The craft's direction: the average of the two estimates, which damps
/// numeric drift of the shape.
#[verifier::opaque]
pub open spec fn direction_of(m: ShipState) -> (int, int) {
    let (d1, d2) = dir_estimates(m);
    (tdiv(d1.0 + d2.0, 2), tdiv(d1.1 + d2.1, 2))
}

/// The thrust force of one active throttle: three times the gravity
/// magnitude, along the craft's direction.
pub open spec fn tforce_of(m: ShipState) -> (int, int) {
    let d = direction_of(m);
    (tdiv(d.0 * 960_000, SCALE as int), tdiv(d.1 * 960_000, SCALE as int))
}

/// The craft after the active throttles fire: left thrusts the first
/// bottom point, right the second, bottom both.
pub open spec fn throttle_step(m: ShipState, left: bool, bottom: bool, right: bool) -> ShipState {
    let f = tforce_of(m);
    let m1 = if left {
        ShipState { q0: forced_q(m.q0, f), ..m }
    } else {
        m
    };
    let m2 = if bottom {
        ShipState { q0: forced_q(m1.q0, f), q1: forced_q(m1.q1, f), ..m1 }
    } else {
        m1
    };
    if right {
        ShipState { q1: forced_q(m2.q1, f), ..m2 }
    } else {
        m2
    }
}

/// All three points advanced by one Verlet step.
pub open spec fn verlet_step(m: ShipState) -> ShipState {
    ShipState {
        p0: (2 * m.p0.0 - m.q0.0, 2 * m.p0.1 - m.q0.1),
        q0: m.p0,
        p1: (2 * m.p1.0 - m.q1.0, 2 * m.p1.1 - m.q1.1),
        q1: m.p1,
        pt: (2 * m.pt.0 - m.qt.0, 2 * m.pt.1 - m.qt.1),
        qt: m.pt,
    }
}

/// The shape constraint's center: midway between the bottom midpoint and
/// the top point.
#[verifier::opaque]
pub open spec fn fix_center(m: ShipState) -> (int, int) {
    let bmid = (tdiv(m.p0.0 + m.p1.0, 2), tdiv(m.p0.1 + m.p1.1, 2));
    (tdiv(bmid.0 + m.pt.0, 2), tdiv(bmid.1 + m.pt.1, 2))
}

/// The one-pass rigid-shape correction: recompute center and direction,
/// then reposition the top point five units along the direction and the
/// bottom points three units either side, leaving previous positions
/// untouched.
pub open spec fn fix_step(m: ShipState) -> ShipState {
    let c = fix_center(m);
    let d = direction_of(m);
    let bot = (c.0 - 5 * d.0, c.1 - 5 * d.1);
    ShipState {
        pt: (c.0 + 5 * d.0, c.1 + 5 * d.1),
        p0: (bot.0 - 3 * d.1, bot.1 - 3 * (-d.0)),
        p1: (bot.0 + 3 * d.1, bot.1 + 3 * (-d.0)),
        ..m
    }
}

/// The craft's direction vector is one unit long, up to normalisation
/// rounding and the disagreement of its two estimates: if both estimate
/// source vectors are at least one unit long and the estimates differ by
/// at most `dd` in squared distance, the squared norm of the direction,
/// times four, lies within `24 SCALE + dd` below and `32 SCALE + 10`
/// above four times the square of `SCALE`.
pub proof fn lemma_direction_norm_sq(m: ShipState, dd: int)
    requires
        len_of(m.pt.0 - origin_of(m).0, m.pt.1 - origin_of(m).1) >= SCALE,
        len_of(m.p0.0 - m.p1.0, m.p0.1 - m.p1.1) >= SCALE,
        dd >= 0,
        ({
            let (d1, d2) = dir_estimates(m);
            (d1.0 - d2.0) * (d1.0 - d2.0) + (d1.1 - d2.1) * (d1.1 - d2.1) <= dd
        }),
    ensures
        ({
            let d = direction_of(m);
            4 * (d.0 * d.0 + d.1 * d.1) >= 4 * (SCALE * SCALE) - 24 * SCALE - dd && 4 * (d.0 * d.0
                + d.1 * d.1) <= 4 * (SCALE * SCALE) + 32 * SCALE + 10
        }),
{
    reveal(direction_of);
    let o = origin_of(m);
    let (d1, d2) = dir_estimates(m);
    let u = unit_of(m.p0.0 - m.p1.0, m.p0.1 - m.p1.1);
    let se = SCALE as int;
    lemma_unit_norm_sq(m.pt.0 - o.0, m.pt.1 - o.1);
    lemma_unit_norm_sq(m.p0.0 - m.p1.0, m.p0.1 - m.p1.1);
    lemma_unit_bounds(m.pt.0 - o.0, m.pt.1 - o.1);
    lemma_unit_bounds(m.p0.0 - m.p1.0, m.p0.1 - m.p1.1);
    // Rotating the bottom estimate keeps its norm and component bounds.
    assert(d2.0 * d2.0 + d2.1 * d2.1 == u.0 * u.0 + u.1 * u.1) by (nonlinear_arith)
        requires
            d2.0 == u.1,
            d2.1 == -u.0,
    ;
    let n1 = d1.0 * d1.0 + d1.1 * d1.1;
    let n2 = d2.0 * d2.0 + d2.1 * d2.1;
    let s0 = d1.0 + d2.0;
    let s1 = d1.1 + d2.1;
    // The parallelogram identity ties the sum to the difference.
    assert(s0 * s0 + s1 * s1 == 2 * n1 + 2 * n2 - ((d1.0 - d2.0) * (d1.0 - d2.0) + (d1.1 - d2.1)
        * (d1.1 - d2.1))) by (nonlinear_arith)
        requires
            s0 == d1.0 + d2.0,
            s1 == d1.1 + d2.1,
            n1 == d1.0 * d1.0 + d1.1 * d1.1,
            n2 == d2.0 * d2.0 + d2.1 * d2.1,
    ;
    assert((d1.0 - d2.0) * (d1.0 - d2.0) >= 0 && (d1.1 - d2.1) * (d1.1 - d2.1) >= 0)
        by (nonlinear_arith);
    assert(s0 * s0 + s1 * s1 >= 4 * (se * se) - 16 * se - dd);
    assert(s0 * s0 + s1 * s1 <= 4 * (se * se) + 24 * se + 8);
    // Halving rounds each component by at most one half.
    let d = direction_of(m);
    assert(d == (tdiv(s0, 2), tdiv(s1, 2)));
    lemma_tdiv_rem(s0, 2);
    lemma_tdiv_rem(s1, 2);
    assert(s0 * s0 - 2 * abs(s0) <= 4 * (d.0 * d.0) <= s0 * s0 + 2 * abs(s0) + 1)
        by (nonlinear_arith)
        requires
            abs(s0 - d.0 * 2) <= 1,
    ;
    assert(s1 * s1 - 2 * abs(s1) <= 4 * (d.1 * d.1) <= s1 * s1 + 2 * abs(s1) + 1)
        by (nonlinear_arith)
        requires
            abs(s1 - d.1 * 2) <= 1,
    ;
    assert(abs(s0) <= 2 * se && abs(s1) <= 2 * se);
}

/// The rigid-shape law: one pass of the shape constraint puts the top
/// point exactly five direction vectors from the constraint's center and
/// the bottom points exactly three rotated direction vectors either side
/// of their midpoint; with the direction one unit long up to rounding and
/// the estimate disagreement `dd`, the top-to-center distance is five
/// units and the bottom half-width three units to the same precision.
/// With estimates agreeing to `dd` of one hundredth of `SCALE` squared,
/// the distances are correct to better than one part in ten thousand.
/// A hard ground collision can tear the two estimates further apart; such
/// states satisfy the bound only after the constraint has damped them.
pub proof fn lemma_shape_constraint(m: ShipState, dd: int)
    requires
        len_of(m.pt.0 - origin_of(m).0, m.pt.1 - origin_of(m).1) >= SCALE,
        len_of(m.p0.0 - m.p1.0, m.p0.1 - m.p1.1) >= SCALE,
        dd >= 0,
        ({
            let (d1, d2) = dir_estimates(m);
            (d1.0 - d2.0) * (d1.0 - d2.0) + (d1.1 - d2.1) * (d1.1 - d2.1) <= dd
        }),
    ensures
        ({
            let f = fix_step(m);
            let c = fix_center(m);
            let d = direction_of(m);
            let top_sq = (f.pt.0 - c.0) * (f.pt.0 - c.0) + (f.pt.1 - c.1) * (f.pt.1 - c.1);
            let width_sq = (f.p1.0 - f.p0.0) * (f.p1.0 - f.p0.0) + (f.p1.1 - f.p0.1) * (f.p1.1
                - f.p0.1);
            &&& f.pt.0 - c.0 == 5 * d.0 && f.pt.1 - c.1 == 5 * d.1
            &&& f.p1.0 - f.p0.0 == 6 * d.1 && f.p1.1 - f.p0.1 == -6 * d.0
            &&& 4 * top_sq >= 25 * (4 * (SCALE * SCALE) - 24 * SCALE - dd)
            &&& 4 * top_sq <= 25 * (4 * (SCALE * SCALE) + 32 * SCALE + 10)
            &&& 4 * width_sq >= 36 * (4 * (SCALE * SCALE) - 24 * SCALE - dd)
            &&& 4 * width_sq <= 36 * (4 * (SCALE * SCALE) + 32 * SCALE + 10)
        }),
{
    lemma_direction_norm_sq(m, dd);
    let f = fix_step(m);
    let c = fix_center(m);
    let d = direction_of(m);
    let top_sq = (f.pt.0 - c.0) * (f.pt.0 - c.0) + (f.pt.1 - c.1) * (f.pt.1 - c.1);
    let width_sq = (f.p1.0 - f.p0.0) * (f.p1.0 - f.p0.0) + (f.p1.1 - f.p0.1) * (f.p1.1 - f.p0.1);
    assert(f.pt.0 - c.0 == 5 * d.0 && f.pt.1 - c.1 == 5 * d.1);
    assert(f.p1.0 - f.p0.0 == 6 * d.1 && f.p1.1 - f.p0.1 == -6 * d.0);
    assert(top_sq == 25 * (d.0 * d.0 + d.1 * d.1)) by (nonlinear_arith)
        requires
            top_sq == (5 * d.0) * (5 * d.0) + (5 * d.1) * (5 * d.1),
    ;
    assert(width_sq == 36 * (d.0 * d.0 + d.1 * d.1)) by (nonlinear_arith)
        requires
            width_sq == (6 * d.1) * (6 * d.1) + (-6 * d.0) * (-6 * d.0),
    ;
}

/// The deterministic part of one integration step: gravity, throttle
/// thrust, Verlet advance, shape correction.
pub open spec fn free_step(m: ShipState, left: bool, bottom: bool, right: bool) -> ShipState {
    fix_step(verlet_step(throttle_step(grav_step(m), left, bottom, right)))
}


/// The rigid-shape law at the level of one full integration step: if the
/// step's ground pass left all three points untouched (the craft is
/// airborne), nothing was out of coordinate range, and the direction
/// estimates after the Verlet advance meet the hypotheses of
/// `lemma_shape_constraint`, then the step's resulting triangle stands
/// rigid: the top point five units from the constraint's center and the
/// bottom points six units apart, to the tolerance set by `dd`.
pub proof fn lemma_integrate_shape(s: Ship, g0: Line, g1: Line, g2: Line, s2: Ship, dd: int)
    requires
        Ship::integrate_rel(s, g0, g1, g2, s2),
        ({
            let mv = verlet_step(
                throttle_step(
                    grav_step(s.state()),
                    s.throttle_left,
                    s.throttle_bottom,
                    s.throttle_right,
                ),
            );
            let m = fix_step(mv);
            &&& len_of(mv.pt.0 - origin_of(mv).0, mv.pt.1 - origin_of(mv).1) >= SCALE
            &&& len_of(mv.p0.0 - mv.p1.0, mv.p0.1 - mv.p1.1) >= SCALE
            &&& dd >= 0
            &&& ({
                let (d1, d2) = dir_estimates(mv);
                (d1.0 - d2.0) * (d1.0 - d2.0) + (d1.1 - d2.1) * (d1.1 - d2.1) <= dd
            })
            &&& collide_i(m.p0, g0) == m.p0 && collide_i(m.p1, g1) == m.p1 && collide_i(
                m.pt,
                g2,
            ) == m.pt
            &&& pt_in(m.p0, SHIP_LIMIT as int) && pt_in(m.p1, SHIP_LIMIT as int) && pt_in(
                m.pt,
                SHIP_LIMIT as int,
            )
        }),
    ensures
        ({
            let mv = verlet_step(
                throttle_step(
                    grav_step(s.state()),
                    s.throttle_left,
                    s.throttle_bottom,
                    s.throttle_right,
                ),
            );
            let c = fix_center(mv);
            let m2 = s2.state();
            let top_sq = (m2.pt.0 - c.0) * (m2.pt.0 - c.0) + (m2.pt.1 - c.1) * (m2.pt.1 - c.1);
            let width_sq = (m2.p1.0 - m2.p0.0) * (m2.p1.0 - m2.p0.0) + (m2.p1.1 - m2.p0.1) * (
            m2.p1.1 - m2.p0.1);
            &&& 4 * top_sq >= 25 * (4 * (SCALE * SCALE) - 24 * SCALE - dd)
            &&& 4 * top_sq <= 25 * (4 * (SCALE * SCALE) + 32 * SCALE + 10)
            &&& 4 * width_sq >= 36 * (4 * (SCALE * SCALE) - 24 * SCALE - dd)
            &&& 4 * width_sq <= 36 * (4 * (SCALE * SCALE) + 32 * SCALE + 10)
        }),
{
    let mv = verlet_step(
        throttle_step(grav_step(s.state()), s.throttle_left, s.throttle_bottom, s.throttle_right),
    );
    let m = fix_step(mv);
    lemma_shape_constraint(mv, dd);
    // An untouched, in-range point passes confinement unchanged, so the
    // step's result holds exactly the shape pass's points.
    assert(confine_i(collide_i(m.p0, g0)) == m.p0);
    assert(confine_i(collide_i(m.p1, g1)) == m.p1);
    assert(confine_i(collide_i(m.pt, g2)) == m.pt);
    assert(s2.state().p0 == m.p0 && s2.state().p1 == m.p1 && s2.state().pt == m.pt);
}

/// The ground test of one point against segment `g`, at the numeric
/// level: below the projection it snaps onto the projection.
#[verifier::opaque]
pub open spec fn collide_i(p: (int, int), g: Line) -> (int, int) {
    let pr = crate::geom::proj_of_i(g, p.0, p.1);
    if p.1 < pr.1 {
        pr
    } else {
        p
    }
}

/// The ground test never leaves a point below the projected ground
/// height: whatever the segment, the tested point ends at or above the
/// projection's height.
pub proof fn lemma_collide_never_below(p: (int, int), g: Line)
    ensures
        collide_i(p, g).1 >= crate::geom::proj_of_i(g, p.0, p.1).1,
        p.1 < crate::geom::proj_of_i(g, p.0, p.1).1 ==> collide_i(p, g) == crate::geom::proj_of_i(
            g,
            p.0,
            p.1,
        ),
        p.1 >= crate::geom::proj_of_i(g, p.0, p.1).1 ==> collide_i(p, g) == p,
{
    reveal(collide_i);
}

/// Both components pulled into the well-formed coordinate range.
pub open spec fn confine_i(p: (int, int)) -> (int, int) {
    (sclamp(p.0, SHIP_LIMIT as int), sclamp(p.1, SHIP_LIMIT as int))
}

/// The craft: two bottom point masses, one top point mass, and the set of
/// active throttles.
pub struct Ship {
    pub bottom: (Inertia, Inertia),
    pub top: Inertia,
    pub throttle_left: bool,
    pub throttle_bottom: bool,
    pub throttle_right: bool,
}

impl Ship {
    /// Whether the given throttle is active.
    pub open spec fn active(self, t: Throttle) -> bool {
        match t {
            Throttle::Left => self.throttle_left,
            Throttle::Bottom => self.throttle_bottom,
            Throttle::Right => self.throttle_right,
        }
    }

    /// A fresh craft: level, at rest, no throttle, bottom points six units
    /// apart and the top point ten units up.
    pub fn new() -> (r: Ship)
        ensures
            r.bottom.0.position == Point(-3_000_000i64, 0i64) && r.bottom.0.prev == r.bottom.0.position,
            r.bottom.1.position == Point(3_000_000i64, 0i64) && r.bottom.1.prev == r.bottom.1.position,
            r.top.position == Point(0i64, 10_000_000i64) && r.top.prev == r.top.position,
            !r.throttle_left && !r.throttle_bottom && !r.throttle_right,
    {
        Ship {
            bottom: (Inertia::new(Point(-3_000_000, 0)), Inertia::new(Point(3_000_000, 0))),
            top: Inertia::new(Point(0, 10_000_000)),
            throttle_left: false,
            throttle_bottom: false,
            throttle_right: false,
        }
    }

    /// The constant downward gravity force.
    fn gravity() -> (r: Vector)
        ensures
            r == (Point(0i64, -320_000i64)),
    {
        Point(0, -320_000)
    }

    /// Inserts or removes one throttle from the active set; idempotent.
    pub fn throttle(&mut self, throttle: Throttle, activate: bool)
        ensures
            forall|t: Throttle|
                final(self).active(t) == if t == throttle {
                    activate
                } else {
                    old(self).active(t)
                },
            final(self).bottom == old(self).bottom,
            final(self).top == old(self).top,
    {
        match throttle {
            Throttle::Left => self.throttle_left = activate,
            Throttle::Bottom => self.throttle_bottom = activate,
            Throttle::Right => self.throttle_right = activate,
        }
    }


    /// The numeric state of the three point masses.
    pub open spec fn state(self) -> ShipState {
        ShipState {
            p0: (self.bottom.0.position.0 as int, self.bottom.0.position.1 as int),
            q0: (self.bottom.0.prev.0 as int, self.bottom.0.prev.1 as int),
            p1: (self.bottom.1.position.0 as int, self.bottom.1.position.1 as int),
            q1: (self.bottom.1.prev.0 as int, self.bottom.1.prev.1 as int),
            pt: (self.top.position.0 as int, self.top.position.1 as int),
            qt: (self.top.prev.0 as int, self.top.prev.1 as int),
        }
    }

    /// All three positions within `lim`.
    pub open spec fn positions_in(self, lim: int) -> bool {
        pt_in(self.state().p0, lim) && pt_in(self.state().p1, lim) && pt_in(self.state().pt, lim)
    }

    /// A well-formed craft: every stored coordinate within range.
    pub open spec fn valid(self) -> bool {
        let m = self.state();
        pt_in(m.p0, SHIP_LIMIT as int) && pt_in(m.p1, SHIP_LIMIT as int) && pt_in(
            m.pt,
            SHIP_LIMIT as int,
        ) && pt_in(m.q0, SHIP_LIMIT as int) && pt_in(m.q1, SHIP_LIMIT as int) && pt_in(
            m.qt,
            SHIP_LIMIT as int,
        )
    }

    /// What one integration step against the (randomly extended) terrain
    /// certifies: the deterministic free step ran, and each point was then
    /// tested against some well-formed ground segment bracketing its x and
    /// confined to the coordinate range.
    pub open spec fn integrate_rel(s: Ship, g0: Line, g1: Line, g2: Line, s2: Ship) -> bool {
        let m = free_step(s.state(), s.throttle_left, s.throttle_bottom, s.throttle_right);
        let m2 = s2.state();
        &&& ground_seg_ok(g0) && g0.0.0 <= m.p0.0 <= g0.1.0
        &&& ground_seg_ok(g1) && g1.0.0 <= m.p1.0 <= g1.1.0
        &&& ground_seg_ok(g2) && g2.0.0 <= m.pt.0 <= g2.1.0
        &&& m2.p0 == confine_i(collide_i(m.p0, g0))
        &&& m2.p1 == confine_i(collide_i(m.p1, g1))
        &&& m2.pt == confine_i(collide_i(m.pt, g2))
        &&& m2.q0 == m.q0 && m2.q1 == m.q1 && m2.qt == m.qt
    }

    /// The full relation of one integration step, terrain included: the
    /// craft went through the deterministic free step and one ground test
    /// per point, each against a stored segment of the window as it stood
    /// after that point's query; the window itself evolved from `w0` to
    /// `w2` through exactly three window maintenances.
    pub open spec fn integrate_post(s: Ship, w0: Seq<Point>, s2: Ship, w2: Seq<Point>) -> bool {
        let m = free_step(s.state(), s.throttle_left, s.throttle_bottom, s.throttle_right);
        &&& s2.valid()
        &&& window_wf(w2)
        &&& s2.throttle_left == s.throttle_left
        &&& s2.throttle_bottom == s.throttle_bottom
        &&& s2.throttle_right == s.throttle_right
        &&& exists|g0: Line, g1: Line, g2: Line, wa: Seq<Point>, wb: Seq<Point>|
            {
                &&& #[trigger] ground_query(w0, m.p0.0, wa, g0)
                &&& #[trigger] ground_query(wa, m.p1.0, wb, g1)
                &&& #[trigger] ground_query(wb, m.pt.0, w2, g2)
                &&& Self::integrate_rel(s, g0, g1, g2, s2)
            }
    }

    /// The midpoint of the two bottom points.
    pub fn origin(&self) -> (r: Point)
        requires
            self.positions_in(4 * SHIP_LIMIT as int),
        ensures
            (r.0 as int, r.1 as int) == origin_of(self.state()),
            abs(r.0 as int) <= 4 * SHIP_LIMIT,
            abs(r.1 as int) <= 4 * SHIP_LIMIT,
    {
        proof {
            crate::arith::lemma_tdiv_mag(
                self.bottom.0.position.0 + self.bottom.1.position.0,
                2,
            );
            crate::arith::lemma_tdiv_mag(
                self.bottom.0.position.1 + self.bottom.1.position.1,
                2,
            );
        }
        self.bottom.0.position.plus(self.bottom.1.position).half()
    }

    /// The craft's direction: the average of the two unit estimates.
    pub fn direction(&self) -> (r: Vector)
        requires
            self.positions_in(4 * SHIP_LIMIT as int),
        ensures
            (r.0 as int, r.1 as int) == direction_of(self.state()),
            abs(r.0 as int) <= SCALE,
            abs(r.1 as int) <= SCALE,
    {
        let origin = self.origin();
        let dir1 = self.top.position.minus(origin).unit();
        let dir2 = self.bottom.0.position.minus(self.bottom.1.position).unit().rot90();
        proof {
            reveal(direction_of);
            crate::arith::lemma_tdiv_mag(dir1.0 + dir2.0, 2);
            crate::arith::lemma_tdiv_mag(dir1.1 + dir2.1, 2);
        }
        dir1.plus(dir2).half()
    }

    /// The thrust of one throttle: three times the gravity magnitude,
    /// along the craft's direction.
    fn throttle_force(&self) -> (r: Vector)
        requires
            self.positions_in(4 * SHIP_LIMIT as int),
        ensures
            (r.0 as int, r.1 as int) == tforce_of(self.state()),
            abs(r.0 as int) <= 960_000,
            abs(r.1 as int) <= 960_000,
    {
        let g = Self::gravity().len();
        proof {
            let n = (0 * 0 + (-320_000) * (-320_000)) as nat;
            assert(n == 102_400_000_000);
            assert(320_000 * 320_000 == 102_400_000_000) by (nonlinear_arith);
            assert(320_001 * 320_001 == 102_400_640_001) by (nonlinear_arith);
            assert(crate::arith::is_isqrt(n, 320_000nat));
            crate::geom::lemma_isqrt_exists(n);
            crate::arith::lemma_isqrt_unique(
                n,
                crate::arith::isqrt(n),
                320_000nat,
            );
            assert(g == 320_000);
        }
        let force = g * 3;
        let d = self.direction();
        proof {
            assert(abs(d.0 * 960_000) <= SCALE * 960_000 && abs(d.1 * 960_000) <= SCALE
                * 960_000) by (nonlinear_arith)
                requires
                    abs(d.0 as int) <= SCALE,
                    abs(d.1 as int) <= SCALE,
                    SCALE > 0,
            ;
            crate::arith::lemma_tdiv_le(d.0 * 960_000, SCALE as int, 960_000);
            crate::arith::lemma_tdiv_le(d.1 * 960_000, SCALE as int, 960_000);
        }
        d.mulfix(force)
    }

    /// One pass of the rigid-shape constraint: repositions the three
    /// points around the recomputed center, without touching the previous
    /// positions.
    #[verifier::rlimit(100)]
    #[verifier::spinoff_prover]
    fn fix_points_equidistance(&mut self)
        requires
            old(self).positions_in(4 * SHIP_LIMIT as int),
        ensures
            final(self).state() == fix_step(old(self).state()),
            final(self).positions_in(5 * SHIP_LIMIT as int),
            final(self).throttle_left == old(self).throttle_left,
            final(self).throttle_bottom == old(self).throttle_bottom,
            final(self).throttle_right == old(self).throttle_right,
    {
        proof {
            crate::arith::lemma_tdiv_le(
                self.bottom.0.position.0 + self.bottom.1.position.0,
                2,
                4 * SHIP_LIMIT as int,
            );
            crate::arith::lemma_tdiv_le(
                self.bottom.0.position.1 + self.bottom.1.position.1,
                2,
                4 * SHIP_LIMIT as int,
            );
        }
        let bottom = self.bottom.0.position.plus(self.bottom.1.position).half();
        proof {
            crate::arith::lemma_tdiv_le(bottom.0 + self.top.position.0, 2, 4 * SHIP_LIMIT as int);
            crate::arith::lemma_tdiv_le(bottom.1 + self.top.position.1, 2, 4 * SHIP_LIMIT as int);
        }
        let center = bottom.plus(self.top.position).half();
        let direction = self.direction();

        self.top.position = center.plus(direction.scaled(5));
        let bottom2 = center.minus(direction.scaled(5));
        let direction2 = direction.rot90();
        self.bottom.0.position = bottom2.minus(direction2.scaled(3));
        self.bottom.1.position = bottom2.plus(direction2.scaled(3));
        proof {
            reveal(fix_center);
            let m = old(self).state();
            let d = direction_of(m);
            let c = fix_center(m);
            assert((bottom.0 as int, bottom.1 as int) == (tdiv(m.p0.0 + m.p1.0, 2), tdiv(
                m.p0.1 + m.p1.1,
                2,
            )));
            assert((center.0 as int, center.1 as int) == c);
            assert((direction.0 as int, direction.1 as int) == d);
            assert(self.state().pt == (c.0 + 5 * d.0, c.1 + 5 * d.1));
            assert(self.state().p0 == ((c.0 - 5 * d.0) - 3 * d.1, (c.1 - 5 * d.1) - 3 * (-d.0)));
            assert(self.state().p1 == ((c.0 - 5 * d.0) + 3 * d.1, (c.1 - 5 * d.1) + 3 * (-d.0)));
            assert(self.state().q0 == m.q0 && self.state().q1 == m.q1 && self.state().qt == m.qt);
            assert(self.state() == fix_step(m));
        }
    }

    /// One ground pass: each point tested against the terrain at its x.
    /// The ghost result names, for each point, the stored segment that
    /// decided its outcome and the land states after the first and second
    /// queries, so callers can chain the three window maintenances.
    fn ground_collision(&mut self, land: &mut Land) -> (w: Ghost<
        (Line, Line, Line, Seq<Point>, Seq<Point>),
    >)
        requires
            old(self).positions_in(5 * SHIP_LIMIT as int),
            old(land).wf(),
        ensures
            final(land).wf(),
            final(self).bottom.0.prev == old(self).bottom.0.prev,
            final(self).bottom.1.prev == old(self).bottom.1.prev,
            final(self).top.prev == old(self).top.prev,
            final(self).throttle_left == old(self).throttle_left,
            final(self).throttle_bottom == old(self).throttle_bottom,
            final(self).throttle_right == old(self).throttle_right,
            ground_query(old(land)@, old(self).state().p0.0, w@.3, w@.0),
            ground_query(w@.3, old(self).state().p1.0, w@.4, w@.1),
            ground_query(w@.4, old(self).state().pt.0, final(land)@, w@.2),
            ground_seg_ok(w@.0) && ground_seg_ok(w@.1) && ground_seg_ok(w@.2),
            final(self).state().p0 == collide_i(old(self).state().p0, w@.0),
            final(self).state().p1 == collide_i(old(self).state().p1, w@.1),
            final(self).state().pt == collide_i(old(self).state().pt, w@.2),
            final(self).positions_in(6 * crate::geom::COORD_LIMIT as int),
    {
        proof {
            reveal(collide_i);
        }
        land.handle_collision(&mut self.bottom.0.position);
        let ghost la = land@;
        let ghost g0 = choose|g: Line|
            #[trigger] ground_query(old(land)@, old(self).bottom.0.position.0 as int, la, g)
                && collision_evidence(old(self).bottom.0.position, g, self.bottom.0.position);
        land.handle_collision(&mut self.bottom.1.position);
        let ghost lb = land@;
        let ghost g1 = choose|g: Line|
            #[trigger] ground_query(la, old(self).bottom.1.position.0 as int, lb, g)
                && collision_evidence(old(self).bottom.1.position, g, self.bottom.1.position);
        land.handle_collision(&mut self.top.position);
        let ghost g2 = choose|g: Line|
            #[trigger] ground_query(lb, old(self).top.position.0 as int, land@, g)
                && collision_evidence(old(self).top.position, g, self.top.position);
        Ghost((g0, g1, g2, la, lb))
    }

    /// Pulls every position back into the well-formed coordinate range;
    /// the identity on any trajectory that stays in range.
    fn confine(&mut self)
        ensures
            final(self).state().p0 == confine_i(old(self).state().p0),
            final(self).state().p1 == confine_i(old(self).state().p1),
            final(self).state().pt == confine_i(old(self).state().pt),
            final(self).bottom.0.prev == old(self).bottom.0.prev,
            final(self).bottom.1.prev == old(self).bottom.1.prev,
            final(self).top.prev == old(self).top.prev,
            final(self).throttle_left == old(self).throttle_left,
            final(self).throttle_bottom == old(self).throttle_bottom,
            final(self).throttle_right == old(self).throttle_right,
    {
        self.bottom.0.position = Point(
            clamp_i64(self.bottom.0.position.0, SHIP_LIMIT),
            clamp_i64(self.bottom.0.position.1, SHIP_LIMIT),
        );
        self.bottom.1.position = Point(
            clamp_i64(self.bottom.1.position.0, SHIP_LIMIT),
            clamp_i64(self.bottom.1.position.1, SHIP_LIMIT),
        );
        self.top.position = Point(
            clamp_i64(self.top.position.0, SHIP_LIMIT),
            clamp_i64(self.top.position.1, SHIP_LIMIT),
        );
    }

    /// One fixed-timestep advance: gravity, throttle thrust, Verlet
    /// integration, the shape constraint, then ground collision.
    #[verifier::rlimit(100)]
    #[verifier::spinoff_prover]
    pub fn integrate(&mut self, land: &mut Land)
        requires
            old(self).valid(),
            old(land).wf(),
        ensures
            final(self).valid(),
            final(land).wf(),
            final(self).throttle_left == old(self).throttle_left,
            final(self).throttle_bottom == old(self).throttle_bottom,
            final(self).throttle_right == old(self).throttle_right,
            Self::integrate_post(*old(self), old(land)@, *final(self), final(land)@),
            exists|g0: Line, g1: Line, g2: Line|
                Self::integrate_rel(*old(self), g0, g1, g2, *final(self)),
    {
        land.apply_gravity(&mut self.bottom.0);
        land.apply_gravity(&mut self.bottom.1);
        land.apply_gravity(&mut self.top);
        proof {
            assert(self.state() == grav_step(old(self).state()));
        }
        let ghost m_grav = self.state();

        let tf = self.throttle_force();
        if self.throttle_left {
            self.bottom.0.force(tf);
        }
        if self.throttle_bottom {
            self.bottom.0.force(tf);
            self.bottom.1.force(tf);
        }
        if self.throttle_right {
            self.bottom.1.force(tf);
        }
        proof {
            assert(self.state() == throttle_step(
                m_grav,
                old(self).throttle_left,
                old(self).throttle_bottom,
                old(self).throttle_right,
            ));
        }
        let ghost m_forces = self.state();

        self.bottom.0.integrate();
        self.bottom.1.integrate();
        self.top.integrate();
        proof {
            assert(self.state() == verlet_step(m_forces));
        }

        self.fix_points_equidistance();
        proof {
            assert(self.state() == free_step(
                old(self).state(),
                old(self).throttle_left,
                old(self).throttle_bottom,
                old(self).throttle_right,
            ));
        }
        let ghost m_free = self.state();

        let w = self.ground_collision(land);
        self.confine();
        proof {
            let (g0, g1, g2, wa, wb) = w@;
            assert(Self::integrate_rel(*old(self), g0, g1, g2, *final(self)));
            assert(ground_query(old(land)@, m_free.p0.0, wa, g0));
            assert(ground_query(wa, m_free.p1.0, wb, g1));
            assert(ground_query(wb, m_free.pt.0, final(land)@, g2));
            assert(Self::integrate_post(*old(self), old(land)@, *final(self), final(land)@));
        }
    }

    /// The positions of the active throttles, in display order: left is
    /// minus one, bottom zero, right one.
    pub fn active_throttles(&self) -> (r: Vec<i32>)
        ensures
            r@ == (if self.throttle_left {
                seq![-1i32]
            } else {
                Seq::<i32>::empty()
            }) + (if self.throttle_bottom {
                seq![0i32]
            } else {
                Seq::<i32>::empty()
            }) + (if self.throttle_right {
                seq![1i32]
            } else {
                Seq::<i32>::empty()
            }),
    {
        let mut positions: Vec<i32> = Vec::new();
        if self.throttle_left {
            positions.push(-1);
        }
        if self.throttle_bottom {
            positions.push(0);
        }
        if self.throttle_right {
            positions.push(1);
        }
        proof {
            assert(positions@ =~= (if self.throttle_left {
                seq![-1i32]
            } else {
                Seq::<i32>::empty()
            }) + (if self.throttle_bottom {
                seq![0i32]
            } else {
                Seq::<i32>::empty()
            }) + (if self.throttle_right {
                seq![1i32]
            } else {
                Seq::<i32>::empty()
            }));
        }
        positions
    }
}

} // verus!

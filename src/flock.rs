use crate::boid::{
    boundary_force, boundary_spec, Acceleration, Boid, Bounds, Settings, MAX_AGENTS, MAX_WEIGHT,
    WEIGHT_SCALE,
};
use crate::vector::{
    abs, div_trunc, div_trunc_i128, frac, lemma_div_trunc_bound, lemma_len_sq_within, len_sq,
    limit_spec, limit_vec, scale_spec, scale_to, vadd, vfrac, vsub, within, zero, Vec2,
    COORD_LIMIT, WIDE_LIMIT,
};
use vstd::prelude::*;

verus! {

/// Factor that keeps precision in the separation pushes, which fall off with
/// the inverse of the distance.
pub const SEPARATION_SCALE: i128 = 1_048_576;

/// What the neighbour scan of one agent has gathered.
pub struct SumsModel {
    pub alignment: (int, int),
    pub cohesion: (int, int),
    pub separation: (int, int),
    pub count: int,
    pub separation_count: int,
}

/// `q` lies strictly inside the circle of radius `r` round `p`.
pub open spec fn in_radius(p: (int, int), q: (int, int), r: int) -> bool {
    len_sq(p.0 - q.0, p.1 - q.1) < r * r
}

/// The push away from a neighbour at `q` of weight `w`: the direction from
/// `q` to `p` divided by the distance, scaled by `SEPARATION_SCALE`; a
/// neighbour on the same spot gives no push.
pub open spec fn separation_push(p: (int, int), q: (int, int), w: int) -> (int, int) {
    let d = vsub(p, q);
    let d2 = len_sq(d.0, d.1);
    let den = if d2 > 0 {
        d2
    } else {
        1
    };
    (
        div_trunc(d.0 * w * SEPARATION_SCALE, den),
        div_trunc(d.1 * w * SEPARATION_SCALE, den),
    )
}

/// `v` times `w`.
pub open spec fn weighted(v: (int, int), w: int) -> (int, int) {
    (v.0 * w, v.1 * w)
}

/// Nothing gathered yet.
pub open spec fn empty_sums() -> SumsModel {
    SumsModel { alignment: zero(), cohesion: zero(), separation: zero(), count: 0, separation_count: 0 }
}

/// The sums after looking at agent `o` from agent `a`.
pub open spec fn gather(m: SumsModel, a: Boid, o: Boid, st: Settings) -> SumsModel {
    let p = a.position@;
    let q = o.position@;
    let w = o.weight as int;
    let m1 = if in_radius(p, q, st.visual_radius as int) {
        SumsModel {
            alignment: vadd(m.alignment, weighted(o.velocity.0@, w)),
            cohesion: vadd(m.cohesion, weighted(q, w)),
            count: m.count + 1,
            ..m
        }
    } else {
        m
    };
    if in_radius(p, q, st.separation_radius as int) {
        SumsModel {
            separation: vadd(m1.separation, separation_push(p, q, w)),
            separation_count: m1.separation_count + 1,
            ..m1
        }
    } else {
        m1
    }
}

/// The sums that agent `i` gathers from the first `k` agents of `s`,
/// itself left out.
pub open spec fn neighbor_sums(s: Seq<Boid>, i: int, k: int, st: Settings) -> SumsModel
    decreases k,
{
    if k <= 0 {
        empty_sums()
    } else {
        let prev = neighbor_sums(s, i, k - 1, st);
        if k - 1 == i {
            prev
        } else {
            gather(prev, s[i], s[k - 1], st)
        }
    }
}

/// `v` divided by `c`, rounded toward zero.
pub open spec fn vdiv(v: (int, int), c: int) -> (int, int) {
    (div_trunc(v.0, c), div_trunc(v.1, c))
}

/// Steering toward `target` at full speed from `velocity`, limited to the
/// largest force and weighted by `weight` thousandths.
pub open spec fn steer(target: (int, int), velocity: (int, int), st: Settings, weight: int) -> (
    int,
    int,
) {
    vfrac(
        limit_spec(vsub(scale_spec(target, st.max_speed as int), velocity), st.max_force as int),
        weight,
        WEIGHT_SCALE as int,
    )
}

/// Alignment: steer toward the weighted mean velocity of the neighbours
/// (weights count thousandths of a boid).
pub open spec fn alignment_spec(m: SumsModel, b: Boid, st: Settings) -> (int, int) {
    if m.count > 0 {
        steer(vdiv(m.alignment, m.count * WEIGHT_SCALE), b.velocity.0@, st, st.alignment as int)
    } else {
        zero()
    }
}

/// Cohesion: steer toward the weighted mean position of the neighbours
/// (weights count thousandths of a boid).
pub open spec fn cohesion_spec(m: SumsModel, b: Boid, st: Settings) -> (int, int) {
    if m.count > 0 {
        steer(vsub(vdiv(m.cohesion, m.count * WEIGHT_SCALE), b.position@), b.velocity.0@, st, st.cohesion as int)
    } else {
        zero()
    }
}

/// Separation: steer along the mean push away from close neighbours.
pub open spec fn separation_spec(m: SumsModel, b: Boid, st: Settings) -> (int, int) {
    if m.separation_count > 0 {
        steer(
            vdiv(m.separation, m.separation_count),
            b.velocity.0@,
            st,
            st.separation as int,
        )
    } else {
        zero()
    }
}

/// The steering acceleration of agent `i` of the snapshot `s`.
pub open spec fn acceleration_spec(s: Seq<Boid>, i: int, st: Settings, bounds: Bounds) -> (
    int,
    int,
) {
    let m = neighbor_sums(s, i, s.len() as int, st);
    let b = s[i];
    vadd(
        vadd(vadd(alignment_spec(m, b, st), cohesion_spec(m, b, st)), separation_spec(m, b, st)),
        boundary_spec(b.position@, bounds, st.max_speed as int),
    )
}

/// Every agent of `s` is well formed and there are not too many.
pub open spec fn flock_wf(s: Seq<Boid>) -> bool {
    &&& s.len() <= MAX_AGENTS
    &&& forall|j: int| 0 <= j < s.len() ==> #[trigger] s[j].wf()
}

/// Tells whether every agent is well formed and there are not too many.
pub fn is_flock_wf(boids: &Vec<Boid>) -> (r: bool)
    ensures
        r == flock_wf(boids@),
{
    if boids.len() > MAX_AGENTS {
        return false;
    }
    let mut k: usize = 0;
    while k < boids.len()
        invariant
            0 <= k <= boids.len(),
            forall|j: int| 0 <= j < k ==> #[trigger] boids@[j].wf(),
        decreases boids.len() - k,
    {
        if !boids[k].is_wf() {
            return false;
        }
        k = k + 1;
    }
    true
}

/// Bound on a weighted position or velocity.
pub open spec fn weighted_bound() -> int {
    COORD_LIMIT * MAX_WEIGHT
}

/// Bound on a mean position or velocity.
pub open spec fn mean_bound() -> int {
    COORD_LIMIT * (MAX_WEIGHT / WEIGHT_SCALE)
}

/// Bound on one separation push.
pub open spec fn push_bound() -> int {
    MAX_WEIGHT * SEPARATION_SCALE
}

/// Every sum is within its count times the bound of one term.
pub open spec fn sums_bounded(m: SumsModel) -> bool {
    &&& 0 <= m.count
    &&& 0 <= m.separation_count
    &&& abs(m.alignment.0) <= m.count * weighted_bound()
    &&& abs(m.alignment.1) <= m.count * weighted_bound()
    &&& abs(m.cohesion.0) <= m.count * weighted_bound()
    &&& abs(m.cohesion.1) <= m.count * weighted_bound()
    &&& abs(m.separation.0) <= m.separation_count * push_bound()
    &&& abs(m.separation.1) <= m.separation_count * push_bound()
}

/// What the neighbour scan gathers, in machine integers.
pub struct NeighborSums {
    pub alignment_x: i128,
    pub alignment_y: i128,
    pub cohesion_x: i128,
    pub cohesion_y: i128,
    pub separation_x: i128,
    pub separation_y: i128,
    pub count: i64,
    pub separation_count: i64,
}

impl View for NeighborSums {
    type V = SumsModel;

    open spec fn view(&self) -> SumsModel {
        SumsModel {
            alignment: (self.alignment_x as int, self.alignment_y as int),
            cohesion: (self.cohesion_x as int, self.cohesion_y as int),
            separation: (self.separation_x as int, self.separation_y as int),
            count: self.count as int,
            separation_count: self.separation_count as int,
        }
    }
}

proof fn lemma_step_bound(a: int, t: int, c: int, b: int)
    requires
        0 <= c,
        abs(a) <= c * b,
        abs(t) <= b,
    ensures
        abs(a + t) <= (c + 1) * b,
{
    assert((c + 1) * b == c * b + b) by (nonlinear_arith);
}

proof fn lemma_weighted_bound(c: int, w: int)
    requires
        abs(c) <= COORD_LIMIT,
        1 <= w <= MAX_WEIGHT,
    ensures
        abs(c * w) <= weighted_bound(),
{
    assert(abs(c * w) <= COORD_LIMIT * MAX_WEIGHT) by (nonlinear_arith)
        requires
            abs(c) <= COORD_LIMIT,
            1 <= w <= MAX_WEIGHT,
            abs(c) == (if c >= 0 { c } else { -c }),
            abs(c * w) == (if c * w >= 0 { c * w } else { -(c * w) }),
    ;
}

proof fn lemma_push_component_bound(a: int, b: int, w: int)
    requires
        abs(a) <= 2 * COORD_LIMIT,
        abs(b) <= 2 * COORD_LIMIT,
        1 <= w <= MAX_WEIGHT,
    ensures
        abs(div_trunc(a * w * SEPARATION_SCALE, if len_sq(a, b) > 0 { len_sq(a, b) } else { 1 }))
            <= push_bound(),
{
    let d2 = len_sq(a, b);
    let den = if d2 > 0 {
        d2
    } else {
        1
    };
    let ws = w * SEPARATION_SCALE;
    assert(0 <= a * a && 0 <= b * b) by (nonlinear_arith);
    assert(abs(a) <= a * a) by (nonlinear_arith)
        requires
            abs(a) == (if a >= 0 { a } else { -a }),
    ;
    assert(abs(a) <= den);
    assert(abs(a * w * SEPARATION_SCALE) <= den * ws) by (nonlinear_arith)
        requires
            abs(a) <= den,
            1 <= w,
            ws == w * SEPARATION_SCALE,
            abs(a) == (if a >= 0 { a } else { -a }),
            abs(a * w * SEPARATION_SCALE) == (if a * w * SEPARATION_SCALE >= 0 {
                a * w * SEPARATION_SCALE
            } else {
                -(a * w * SEPARATION_SCALE)
            }),
    ;
    lemma_div_trunc_bound(a * w * SEPARATION_SCALE, den, ws);
    assert(ws <= push_bound()) by (nonlinear_arith)
        requires
            1 <= w <= MAX_WEIGHT,
            ws == w * SEPARATION_SCALE,
    ;
}

/// The push away from a neighbour at `q` of weight `w`.
fn separation_push_exec(p: Vec2, q: Vec2, w: i64) -> (r: (i128, i128))
    requires
        within(p, COORD_LIMIT as int),
        within(q, COORD_LIMIT as int),
        1 <= w <= MAX_WEIGHT,
    ensures
        (r.0 as int, r.1 as int) == separation_push(p@, q@, w as int),
        abs(r.0 as int) <= push_bound(),
        abs(r.1 as int) <= push_bound(),
{
    let dx: i128 = p.x as i128 - q.x as i128;
    let dy: i128 = p.y as i128 - q.y as i128;
    proof {
        assert(0 <= dx * dx <= 4 * COORD_LIMIT * COORD_LIMIT) by (nonlinear_arith)
            requires
                -2 * COORD_LIMIT <= dx <= 2 * COORD_LIMIT,
        ;
        assert(0 <= dy * dy <= 4 * COORD_LIMIT * COORD_LIMIT) by (nonlinear_arith)
            requires
                -2 * COORD_LIMIT <= dy <= 2 * COORD_LIMIT,
        ;
        assert(abs(dx * w * SEPARATION_SCALE) <= 2 * COORD_LIMIT * MAX_WEIGHT * SEPARATION_SCALE)
            by (nonlinear_arith)
            requires
                -2 * COORD_LIMIT <= dx <= 2 * COORD_LIMIT,
                1 <= w <= MAX_WEIGHT,
                abs(dx * w * SEPARATION_SCALE) == (if dx * w * SEPARATION_SCALE >= 0 {
                    dx * w * SEPARATION_SCALE
                } else {
                    -(dx * w * SEPARATION_SCALE)
                }),
        ;
        assert(abs(dy * w * SEPARATION_SCALE) <= 2 * COORD_LIMIT * MAX_WEIGHT * SEPARATION_SCALE)
            by (nonlinear_arith)
            requires
                -2 * COORD_LIMIT <= dy <= 2 * COORD_LIMIT,
                1 <= w <= MAX_WEIGHT,
                abs(dy * w * SEPARATION_SCALE) == (if dy * w * SEPARATION_SCALE >= 0 {
                    dy * w * SEPARATION_SCALE
                } else {
                    -(dy * w * SEPARATION_SCALE)
                }),
        ;
        lemma_push_component_bound(dx as int, dy as int, w as int);
        lemma_push_component_bound(dy as int, dx as int, w as int);
        assert(len_sq(dy as int, dx as int) == len_sq(dx as int, dy as int));
    }
    let d2: i128 = dx * dx + dy * dy;
    let den: i128 = if d2 > 0 {
        d2
    } else {
        1
    };
    let sx: i128 = div_trunc_i128(dx * (w as i128) * SEPARATION_SCALE, den);
    let sy: i128 = div_trunc_i128(dy * (w as i128) * SEPARATION_SCALE, den);
    (sx, sy)
}

/// The neighbour scan of agent `i` over the whole snapshot: weighted sums
/// of the velocities and positions of the agents strictly inside the visual
/// radius, and of the pushes away from those strictly inside the separation
/// radius, with their counts. The agent itself is left out by its index.
pub fn neighbor_scan(snapshot: &Vec<Boid>, i: usize, settings: &Settings) -> (r: NeighborSums)
    requires
        flock_wf(snapshot@),
        i < snapshot.len(),
        settings.wf(),
    ensures
        r@ == neighbor_sums(snapshot@, i as int, snapshot.len() as int, *settings),
        sums_bounded(r@),
        r.count <= snapshot.len(),
        r.separation_count <= snapshot.len(),
{
    let me = snapshot[i];
    let p = me.position;
    let vr: i128 = settings.visual_radius as i128;
    let sr: i128 = settings.separation_radius as i128;
    let mut r = NeighborSums {
        alignment_x: 0,
        alignment_y: 0,
        cohesion_x: 0,
        cohesion_y: 0,
        separation_x: 0,
        separation_y: 0,
        count: 0,
        separation_count: 0,
    };
    let n = snapshot.len();
    let mut k: usize = 0;
    while k < n
        invariant
            flock_wf(snapshot@),
            settings.wf(),
            i < n == snapshot.len(),
            me == snapshot@[i as int],
            p == me.position,
            vr == settings.visual_radius,
            sr == settings.separation_radius,
            0 <= k <= n,
            r@ == neighbor_sums(snapshot@, i as int, k as int, *settings),
            sums_bounded(r@),
            r.count <= k,
            r.separation_count <= k,
        decreases n - k,
    {
        let o = snapshot[k];
        assert(o.wf());
        assert(me.wf());
        if k != i {
            let dx: i128 = p.x as i128 - o.position.x as i128;
            let dy: i128 = p.y as i128 - o.position.y as i128;
            proof {
                assert(0 <= dx * dx <= 4 * COORD_LIMIT * COORD_LIMIT) by (nonlinear_arith)
                    requires
                        -2 * COORD_LIMIT <= dx <= 2 * COORD_LIMIT,
                ;
                assert(0 <= dy * dy <= 4 * COORD_LIMIT * COORD_LIMIT) by (nonlinear_arith)
                    requires
                        -2 * COORD_LIMIT <= dy <= 2 * COORD_LIMIT,
                ;
                assert(0 <= vr * vr <= COORD_LIMIT * COORD_LIMIT) by (nonlinear_arith)
                    requires
                        0 <= vr <= COORD_LIMIT,
                ;
                assert(0 <= sr * sr <= COORD_LIMIT * COORD_LIMIT) by (nonlinear_arith)
                    requires
                        0 <= sr <= COORD_LIMIT,
                ;
            }
            let d2: i128 = dx * dx + dy * dy;
            let w: i64 = o.weight;
            let ghost m0 = r@;
            if d2 < vr * vr {
                proof {
                    lemma_weighted_bound(o.velocity.0.x as int, w as int);
                    lemma_weighted_bound(o.velocity.0.y as int, w as int);
                    lemma_weighted_bound(o.position.x as int, w as int);
                    lemma_weighted_bound(o.position.y as int, w as int);
                    lemma_step_bound(r.alignment_x as int, o.velocity.0.x * w, r.count as int, weighted_bound());
                    lemma_step_bound(r.alignment_y as int, o.velocity.0.y * w, r.count as int, weighted_bound());
                    lemma_step_bound(r.cohesion_x as int, o.position.x * w, r.count as int, weighted_bound());
                    lemma_step_bound(r.cohesion_y as int, o.position.y * w, r.count as int, weighted_bound());
                    assert(r.count * weighted_bound() <= MAX_AGENTS * weighted_bound()) by (nonlinear_arith)
                        requires
                            0 <= r.count <= MAX_AGENTS,
                    ;
                }
                r.alignment_x = r.alignment_x + (o.velocity.0.x as i128) * (w as i128);
                r.alignment_y = r.alignment_y + (o.velocity.0.y as i128) * (w as i128);
                r.cohesion_x = r.cohesion_x + (o.position.x as i128) * (w as i128);
                r.cohesion_y = r.cohesion_y + (o.position.y as i128) * (w as i128);
                r.count = r.count + 1;
            }
            if d2 < sr * sr {
                let push = separation_push_exec(p, o.position, w);
                proof {
                    lemma_step_bound(r.separation_x as int, push.0 as int, r.separation_count as int, push_bound());
                    lemma_step_bound(r.separation_y as int, push.1 as int, r.separation_count as int, push_bound());
                    assert(r.separation_count * push_bound() <= MAX_AGENTS * push_bound()) by (nonlinear_arith)
                        requires
                            0 <= r.separation_count <= MAX_AGENTS,
                    ;
                }
                r.separation_x = r.separation_x + push.0;
                r.separation_y = r.separation_y + push.1;
                r.separation_count = r.separation_count + 1;
            }
            assert(r@ == gather(m0, me, o, *settings));
        }
        k = k + 1;
    }
    r
}

/// The forces that make up one agent's steering acceleration.
#[derive(Clone, Copy, Debug, PartialEq, Eq, Structural)]
pub struct FlockForces {
    pub alignment: Vec2,
    pub cohesion: Vec2,
    pub separation: Vec2,
    pub boundary: Vec2,
}

/// Steering toward `(tx, ty)` at full speed from `velocity`, limited to the
/// largest force and weighted by `weight` thousandths.
fn steer_exec(tx: i128, ty: i128, velocity: Vec2, settings: &Settings, weight: i64) -> (r: Vec2)
    requires
        -WIDE_LIMIT <= tx <= WIDE_LIMIT,
        -WIDE_LIMIT <= ty <= WIDE_LIMIT,
        within(velocity, COORD_LIMIT as int),
        settings.wf(),
        0 <= weight <= WEIGHT_SCALE,
    ensures
        r@ == steer((tx as int, ty as int), velocity@, *settings, weight as int),
        within(r, settings.max_force as int),
{
    let d = scale_to(tx, ty, settings.max_speed);
    let mut diff = Vec2 { x: d.x - velocity.x, y: d.y - velocity.y };
    limit_vec(&mut diff, settings.max_force);
    proof {
        lemma_len_sq_within(diff.x as int, diff.y as int, settings.max_force as int);
    }
    frac(diff, weight, WEIGHT_SCALE)
}

/// `(x, y)` divided by a positive `c`, rounded toward zero.
fn average(x: i128, y: i128, c: i64, Ghost(bound): Ghost<int>) -> (r: (i128, i128))
    requires
        0 < c <= MAX_AGENTS * WEIGHT_SCALE,
        0 <= bound <= WIDE_LIMIT,
        abs(x as int) <= c * bound,
        abs(y as int) <= c * bound,
    ensures
        (r.0 as int, r.1 as int) == vdiv((x as int, y as int), c as int),
        abs(r.0 as int) <= bound,
        abs(r.1 as int) <= bound,
{
    proof {
        assert(c * bound <= MAX_AGENTS * WEIGHT_SCALE * WIDE_LIMIT) by (nonlinear_arith)
            requires
                0 < c <= MAX_AGENTS * WEIGHT_SCALE,
                0 <= bound <= WIDE_LIMIT,
        ;
        lemma_div_trunc_bound(x as int, c as int, bound);
        lemma_div_trunc_bound(y as int, c as int, bound);
    }
    (div_trunc_i128(x, c as i128), div_trunc_i128(y, c as i128))
}

/// The alignment, cohesion, separation and boundary forces on agent `i` of
/// the snapshot; alignment and cohesion are zero without neighbours in the
/// visual radius, separation without neighbours in the separation radius.
pub fn flock_forces(snapshot: &Vec<Boid>, i: usize, settings: &Settings, bounds: &Bounds) -> (r:
    FlockForces)
    requires
        flock_wf(snapshot@),
        i < snapshot.len(),
        settings.wf(),
    ensures
        ({
            let m = neighbor_sums(snapshot@, i as int, snapshot.len() as int, *settings);
            let b = snapshot@[i as int];
            &&& r.alignment@ == alignment_spec(m, b, *settings)
            &&& r.cohesion@ == cohesion_spec(m, b, *settings)
            &&& r.separation@ == separation_spec(m, b, *settings)
            &&& r.boundary@ == boundary_spec(b.position@, *bounds, settings.max_speed as int)
        }),
        within(r.alignment, settings.max_force as int),
        within(r.cohesion, settings.max_force as int),
        within(r.separation, settings.max_force as int),
        within(r.boundary, 2 * settings.max_speed),
{
    let b = snapshot[i];
    assert(b.wf());
    let sums = neighbor_scan(snapshot, i, settings);
    let v = b.velocity.0;
    let mut alignment = Vec2 { x: 0, y: 0 };
    let mut cohesion = Vec2 { x: 0, y: 0 };
    let mut separation = Vec2 { x: 0, y: 0 };
    proof {
        assert(mean_bound() < WIDE_LIMIT / 2);
        assert(weighted_bound() == WEIGHT_SCALE * mean_bound());
        assert(sums.count * weighted_bound() == (sums.count * WEIGHT_SCALE) * mean_bound())
            by (nonlinear_arith)
            requires
                weighted_bound() == WEIGHT_SCALE * mean_bound(),
        ;
        assert(push_bound() < WIDE_LIMIT / 2);
    }
    if sums.count > 0 {
        let c_scaled: i64 = sums.count * WEIGHT_SCALE;
        let a = average(sums.alignment_x, sums.alignment_y, c_scaled, Ghost(mean_bound()));
        alignment = steer_exec(a.0, a.1, v, settings, settings.alignment);
        let c = average(sums.cohesion_x, sums.cohesion_y, c_scaled, Ghost(mean_bound()));
        cohesion = steer_exec(
            c.0 - b.position.x as i128,
            c.1 - b.position.y as i128,
            v,
            settings,
            settings.cohesion,
        );
    }
    if sums.separation_count > 0 {
        let s = average(sums.separation_x, sums.separation_y, sums.separation_count, Ghost(push_bound()));
        separation = steer_exec(s.0, s.1, v, settings, settings.separation);
    }
    let boundary = boundary_force(b.position, bounds, settings.max_speed);
    FlockForces { alignment, cohesion, separation, boundary }
}

/// The steering acceleration of agent `i` of the snapshot: the sum of its
/// alignment, cohesion, separation and boundary forces.
pub fn flock_acceleration(snapshot: &Vec<Boid>, i: usize, settings: &Settings, bounds: &Bounds) -> (r:
    Vec2)
    requires
        flock_wf(snapshot@),
        i < snapshot.len(),
        settings.wf(),
    ensures
        r@ == acceleration_spec(snapshot@, i as int, *settings, *bounds),
        within(r, 5 * COORD_LIMIT),
{
    let f = flock_forces(snapshot, i, settings, bounds);
    Vec2 {
        x: f.alignment.x + f.cohesion.x + f.separation.x + f.boundary.x,
        y: f.alignment.y + f.cohesion.y + f.separation.y + f.boundary.y,
    }
}

/// `after` is `before` with only its acceleration changed.
pub open spec fn same_but_acceleration(before: Boid, after: Boid) -> bool {
    after == Boid { acceleration: after.acceleration, ..before }
}

/// Sets the acceleration of every agent but the player from one snapshot of
/// the flock taken before any write, so the result does not depend on the
/// order in which agents are visited. The player keeps its acceleration.
pub fn boid_flock(boids: &mut Vec<Boid>, settings: &Settings, bounds: &Bounds)
    requires
        flock_wf(old(boids)@),
        settings.wf(),
    ensures
        final(boids).len() == old(boids).len(),
        forall|j: int|
            0 <= j < old(boids).len() ==> {
                &&& same_but_acceleration(#[trigger] old(boids)@[j], final(boids)@[j])
                &&& if old(boids)@[j].is_player {
                    final(boids)@[j].acceleration == old(boids)@[j].acceleration
                } else {
                    &&& final(boids)@[j].acceleration.0@ == acceleration_spec(
                        old(boids)@,
                        j,
                        *settings,
                        *bounds,
                    )
                    &&& within(final(boids)@[j].acceleration.0, 5 * COORD_LIMIT)
                }
            },
        flock_wf(final(boids)@),
{
    let n = boids.len();
    let mut accelerations: Vec<Vec2> = Vec::new();
    let mut k: usize = 0;
    while k < n
        invariant
            n == boids.len(),
            flock_wf(boids@),
            settings.wf(),
            0 <= k <= n,
            accelerations.len() == k,
            forall|j: int|
                0 <= j < k ==> (#[trigger] boids@[j]).is_player || (accelerations@[j]@
                    == acceleration_spec(boids@, j, *settings, *bounds) && within(
                    accelerations@[j],
                    5 * COORD_LIMIT,
                )),
        decreases n - k,
    {
        if boids[k].is_player {
            accelerations.push(boids[k].acceleration.0);
        } else {
            let a = flock_acceleration(boids, k, settings, bounds);
            accelerations.push(a);
        }
        k = k + 1;
    }
    let ghost snapshot = boids@;
    let mut k: usize = 0;
    while k < n
        invariant
            n == boids.len() == snapshot.len() == accelerations.len(),
            0 <= k <= n,
            flock_wf(snapshot),
            forall|j: int|
                0 <= j < n ==> (#[trigger] snapshot[j]).is_player || (accelerations@[j]@
                    == acceleration_spec(snapshot, j, *settings, *bounds) && within(
                    accelerations@[j],
                    5 * COORD_LIMIT,
                )),
            forall|j: int| k <= j < n ==> #[trigger] boids@[j] == snapshot[j],
            forall|j: int|
                0 <= j < k ==> {
                    &&& same_but_acceleration(#[trigger] snapshot[j], boids@[j])
                    &&& if snapshot[j].is_player {
                        boids@[j].acceleration == snapshot[j].acceleration
                    } else {
                        &&& boids@[j].acceleration.0@ == acceleration_spec(
                            snapshot,
                            j,
                            *settings,
                            *bounds,
                        )
                        &&& within(boids@[j].acceleration.0, 5 * COORD_LIMIT)
                    }
                },
        decreases n - k,
    {
        if !boids[k].is_player {
            let old_boid = boids[k];
            boids.set(k, Boid { acceleration: Acceleration(accelerations[k]), ..old_boid });
        }
        k = k + 1;
    }
    assert forall|j: int| 0 <= j < boids.len() implies #[trigger] boids@[j].wf() by {
        assert(snapshot[j].wf());
        assert(same_but_acceleration(snapshot[j], boids@[j]));
    }
}

proof fn lemma_no_neighbours_count(s: Seq<Boid>, i: int, k: int, st: Settings)
    requires
        0 <= i < s.len(),
        k <= s.len(),
        forall|j: int|
            0 <= j < s.len() && j != i ==> !in_radius(
                s[i].position@,
                #[trigger] s[j].position@,
                st.visual_radius as int,
            ),
    ensures
        neighbor_sums(s, i, k, st).count == 0,
    decreases k,
{
    if k > 0 {
        lemma_no_neighbours_count(s, i, k - 1, st);
        if k - 1 != i {
            assert(!in_radius(s[i].position@, s[k - 1].position@, st.visual_radius as int));
        }
    }
}

/// An agent with no other agent strictly inside its visual radius gets no
/// alignment and no cohesion force.
pub proof fn lemma_no_neighbours_no_pull(s: Seq<Boid>, i: int, st: Settings)
    requires
        0 <= i < s.len(),
        forall|j: int|
            0 <= j < s.len() && j != i ==> !in_radius(
                s[i].position@,
                #[trigger] s[j].position@,
                st.visual_radius as int,
            ),
    ensures
        alignment_spec(neighbor_sums(s, i, s.len() as int, st), s[i], st) == zero(),
        cohesion_spec(neighbor_sums(s, i, s.len() as int, st), s[i], st) == zero(),
{
    lemma_no_neighbours_count(s, i, s.len() as int, st);
}

/// The radii are exclusive: a neighbour exactly at the separation radius adds
/// nothing to the separation sums, and one exactly at the visual radius
/// nothing to the alignment and cohesion sums.
pub proof fn lemma_radius_is_exclusive(m: SumsModel, a: Boid, o: Boid, st: Settings)
    requires
        st.wf(),
    ensures
        ({
            let d = vsub(a.position@, o.position@);
            let g = gather(m, a, o, st);
            &&& len_sq(d.0, d.1) == st.separation_radius * st.separation_radius ==> g.separation
                == m.separation && g.separation_count == m.separation_count
            &&& len_sq(d.0, d.1) == st.visual_radius * st.visual_radius ==> g.alignment
                == m.alignment && g.cohesion == m.cohesion && g.count == m.count
        }),
{
}

} // verus!

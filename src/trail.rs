use crate::vector::{
    abs, ceil_sqrt, ceil_sqrt_u128, div_trunc, div_trunc_i128, lemma_div_trunc_bound, len_sq,
    scale_spec, scale_to, vadd, vsub, within, zero, Vec2, COORD_LIMIT, UNIT,
};
use vstd::prelude::*;

verus! {

/// Largest number of points in a trail.
pub const MAX_SEGMENTS: usize = 65535;

/// A colour with red, green, blue and alpha channels of eight bits each.
#[derive(Clone, Copy, Debug, PartialEq, Eq, Structural)]
pub struct Rgba {
    pub r: u8,
    pub g: u8,
    pub b: u8,
    pub a: u8,
}

/// The recent positions of an agent, newest first, drawn as a strip.
pub struct SimpleTrail2D {
    pub thickness: i64,
    pub local_offset: Vec2,
    pub points: Vec<Vec2>,
    pub taper_end: bool,
}

/// Thickness of the strip at point `i` of `n`: falling linearly from
/// `thickness` at the head when the trail tapers, constant otherwise.
pub open spec fn segment_thickness(thickness: int, taper: bool, i: int, n: int) -> int {
    if taper {
        thickness - div_trunc(thickness * i, n)
    } else {
        thickness
    }
}

/// Where point `i` moves in one update: the head goes to `head`, every other
/// point to where its predecessor was.
pub open spec fn shifted(old: Seq<Vec2>, head: Vec2, i: int) -> Vec2 {
    if i == 0 {
        head
    } else {
        old[i - 1]
    }
}

/// Half the strip's width at point `i`, across the direction the point moved.
pub open spec fn trail_perp(old: Seq<Vec2>, head: Vec2, i: int, thickness: int, taper: bool) -> (
    int,
    int,
) {
    let d = vsub(shifted(old, head, i)@, old[i]@);
    scale_spec((d.1, -d.0), segment_thickness(thickness, taper, i, old.len() as int) / 2)
}

/// `offset`, given for an agent facing up, turned to face along `heading`
/// (rounded toward zero); a zero heading leaves it as it is.
pub open spec fn turn_spec(offset: (int, int), heading: (int, int)) -> (int, int) {
    if heading == zero() {
        offset
    } else {
        let l = ceil_sqrt(len_sq(heading.0, heading.1));
        (
            div_trunc(offset.0 * heading.1 + offset.1 * heading.0, l),
            div_trunc(offset.1 * heading.1 - offset.0 * heading.0, l),
        )
    }
}

/// Where a trail attached at `offset` to an agent at `position` facing
/// along `heading` starts.
pub fn trail_head(position: Vec2, offset: Vec2, heading: Vec2) -> (r: Vec2)
    requires
        within(position, COORD_LIMIT as int),
        within(offset, COORD_LIMIT as int),
        within(heading, COORD_LIMIT as int),
    ensures
        r@ == vadd(position@, turn_spec(offset@, heading@)),
{
    if heading.x == 0 && heading.y == 0 {
        return Vec2 { x: position.x + offset.x, y: position.y + offset.y };
    }
    let hx: i128 = heading.x as i128;
    let hy: i128 = heading.y as i128;
    let ox: i128 = offset.x as i128;
    let oy: i128 = offset.y as i128;
    proof {
        assert(0 <= hx * hx <= COORD_LIMIT * COORD_LIMIT) by (nonlinear_arith)
            requires
                -COORD_LIMIT <= hx <= COORD_LIMIT,
        ;
        assert(0 <= hy * hy <= COORD_LIMIT * COORD_LIMIT) by (nonlinear_arith)
            requires
                -COORD_LIMIT <= hy <= COORD_LIMIT,
        ;
    }
    let l: u128 = ceil_sqrt_u128((hx * hx + hy * hy) as u128);
    let l: i128 = l as i128;
    proof {
        let n = hx * hx + hy * hy;
        assert(n >= 1) by (nonlinear_arith)
            requires
                n == hx * hx + hy * hy,
                hx != 0 || hy != 0,
        ;
        if l == 0 {
            assert(l * l == 0);
        }
        assert(abs(hx as int) <= l && abs(hy as int) <= l) by (nonlinear_arith)
            requires
                hx * hx + hy * hy <= l * l,
                l >= 0,
                abs(hx as int) == (if hx >= 0 { hx as int } else { -hx }),
                abs(hy as int) == (if hy >= 0 { hy as int } else { -hy }),
        ;
        assert(-COORD_LIMIT * COORD_LIMIT <= ox * hy <= COORD_LIMIT * COORD_LIMIT
            && -COORD_LIMIT * COORD_LIMIT <= oy * hx <= COORD_LIMIT * COORD_LIMIT
            && -COORD_LIMIT * COORD_LIMIT <= oy * hy <= COORD_LIMIT * COORD_LIMIT
            && -COORD_LIMIT * COORD_LIMIT <= ox * hx <= COORD_LIMIT * COORD_LIMIT) by (nonlinear_arith)
            requires
                -COORD_LIMIT <= hx <= COORD_LIMIT,
                -COORD_LIMIT <= hy <= COORD_LIMIT,
                -COORD_LIMIT <= ox <= COORD_LIMIT,
                -COORD_LIMIT <= oy <= COORD_LIMIT,
        ;
        let a = ox * hy + oy * hx;
        let b = oy * hy - ox * hx;
        assert(abs(a) <= l * (2 * COORD_LIMIT) && abs(b) <= l * (2 * COORD_LIMIT)) by (nonlinear_arith)
            requires
                a == ox * hy + oy * hx,
                b == oy * hy - ox * hx,
                abs(hx as int) <= l,
                abs(hy as int) <= l,
                -COORD_LIMIT <= ox <= COORD_LIMIT,
                -COORD_LIMIT <= oy <= COORD_LIMIT,
                abs(hx as int) == (if hx >= 0 { hx as int } else { -hx }),
                abs(hy as int) == (if hy >= 0 { hy as int } else { -hy }),
                abs(a) == (if a >= 0 { a } else { -a }),
                abs(b) == (if b >= 0 { b } else { -b }),
        ;
        lemma_div_trunc_bound(a, l as int, 2 * COORD_LIMIT);
        lemma_div_trunc_bound(b, l as int, 2 * COORD_LIMIT);
        assert(-2 * COORD_LIMIT * COORD_LIMIT <= a <= 2 * COORD_LIMIT * COORD_LIMIT) by (nonlinear_arith)
            requires
                a == ox * hy + oy * hx,
                -COORD_LIMIT <= hx <= COORD_LIMIT,
                -COORD_LIMIT <= hy <= COORD_LIMIT,
                -COORD_LIMIT <= ox <= COORD_LIMIT,
                -COORD_LIMIT <= oy <= COORD_LIMIT,
        ;
        assert(-2 * COORD_LIMIT * COORD_LIMIT <= b <= 2 * COORD_LIMIT * COORD_LIMIT) by (nonlinear_arith)
            requires
                b == oy * hy - ox * hx,
                -COORD_LIMIT <= hx <= COORD_LIMIT,
                -COORD_LIMIT <= hy <= COORD_LIMIT,
                -COORD_LIMIT <= ox <= COORD_LIMIT,
                -COORD_LIMIT <= oy <= COORD_LIMIT,
        ;
    }
    let tx: i128 = div_trunc_i128(ox * hy + oy * hx, l);
    let ty: i128 = div_trunc_i128(oy * hy - ox * hx, l);
    Vec2 { x: position.x + tx as i64, y: position.y + ty as i64 }
}

/// The points of a trail may be moved and widened without overflow.
pub open spec fn points_in_range(points: Seq<Vec2>) -> bool {
    forall|j: int| 0 <= j < points.len() ==> within(#[trigger] points[j], COORD_LIMIT as int)
}

impl SimpleTrail2D {
    /// A trail of `segments` points, all at `spawn_pos`, that tapers.
    pub fn new(segments: u16, thickness: i64, spawn_pos: Vec2, local_offset: Vec2) -> (r: Self)
        ensures
            r.points@ == Seq::new(segments as nat, |_j: int| spawn_pos),
            r.thickness == thickness,
            r.local_offset == local_offset,
            r.taper_end,
    {
        let mut points: Vec<Vec2> = Vec::new();
        let mut k: u16 = 0;
        while k < segments
            invariant
                0 <= k <= segments,
                points@ == Seq::new(k as nat, |_j: int| spawn_pos),
            decreases segments - k,
        {
            points.push(spawn_pos);
            k = k + 1;
            assert(points@ =~= Seq::new(k as nat, |_j: int| spawn_pos));
        }
        SimpleTrail2D { thickness, local_offset, points, taper_end: true }
    }

    /// Moves every point to where its predecessor was and the head to
    /// `head`, and returns the strip's vertices from the tail to the head:
    /// for each point, the point less and plus half the strip's width across
    /// the direction it moved.
    pub fn update_trail(&mut self, head: Vec2) -> (vertices: Vec<Vec2>)
        requires
            1 <= old(self).points.len() <= MAX_SEGMENTS,
            points_in_range(old(self).points@),
            within(head, COORD_LIMIT as int),
            0 <= old(self).thickness <= COORD_LIMIT,
        ensures
            final(self).thickness == old(self).thickness,
            final(self).local_offset == old(self).local_offset,
            final(self).taper_end == old(self).taper_end,
            final(self).points.len() == old(self).points.len(),
            forall|j: int|
                0 <= j < old(self).points.len() ==> #[trigger] final(self).points@[j] == shifted(
                    old(self).points@,
                    head,
                    j,
                ),
            vertices.len() == 2 * old(self).points.len(),
            forall|m: int|
                0 <= m < old(self).points.len() ==> {
                    let i = old(self).points.len() - 1 - m;
                    let p = shifted(old(self).points@, head, i)@;
                    let q = trail_perp(
                        old(self).points@,
                        head,
                        i,
                        old(self).thickness as int,
                        old(self).taper_end,
                    );
                    &&& (#[trigger] vertices@[2 * m])@ == vsub(p, q)
                    &&& vertices@[2 * m + 1]@ == (p.0 + q.0, p.1 + q.1)
                },
    {
        let ghost start = self.points@;
        let n = self.points.len();
        let mut vertices: Vec<Vec2> = Vec::new();
        let mut k: usize = 0;
        while k < n
            invariant
                n == self.points.len() == start.len(),
                1 <= n <= MAX_SEGMENTS,
                0 <= k <= n,
                points_in_range(start),
                within(head, COORD_LIMIT as int),
                0 <= self.thickness <= COORD_LIMIT,
                self.thickness == old(self).thickness,
                self.local_offset == old(self).local_offset,
                self.taper_end == old(self).taper_end,
                start == old(self).points@,
                forall|j: int| 0 <= j < n - k ==> #[trigger] self.points@[j] == start[j],
                forall|j: int|
                    n - k <= j < n ==> #[trigger] self.points@[j] == shifted(start, head, j),
                vertices.len() == 2 * k,
                forall|m: int|
                    0 <= m < k ==> {
                        let i = n - 1 - m;
                        let p = shifted(start, head, i)@;
                        let q = trail_perp(start, head, i, self.thickness as int, self.taper_end);
                        &&& (#[trigger] vertices@[2 * m])@ == vsub(p, q)
                        &&& vertices@[2 * m + 1]@ == (p.0 + q.0, p.1 + q.1)
                    },
            decreases n - k,
        {
            let i = n - 1 - k;
            let new_pos = if i >= 1 {
                self.points[i - 1]
            } else {
                head
            };
            let old_pos = self.points[i];
            assert(within(start[i as int], COORD_LIMIT as int));
            assert(i >= 1 ==> within(start[i - 1], COORD_LIMIT as int));
            let t = self.thickness;
            proof {
                assert(abs(t * i) <= n * t) by (nonlinear_arith)
                    requires
                        0 <= t,
                        0 <= i < n,
                        abs(t * i) == (if t * i >= 0 { t * i } else { -(t * i) }),
                ;
                lemma_div_trunc_bound(t * i, n as int, t as int);
                assert(0 <= t * i <= t * MAX_SEGMENTS) by (nonlinear_arith)
                    requires
                        0 <= t,
                        0 <= i < MAX_SEGMENTS,
                ;
            }
            let width: i64 = if self.taper_end {
                t - (t * (i as i64)) / (n as i64)
            } else {
                t
            };
            let dx: i128 = new_pos.x as i128 - old_pos.x as i128;
            let dy: i128 = new_pos.y as i128 - old_pos.y as i128;
            let perp = scale_to(dy, -dx, width / 2);
            assert(new_pos == shifted(start, head, i as int));
            assert(old_pos == start[i as int]);
            assert(width == segment_thickness(t as int, self.taper_end, i as int, n as int));
            assert(perp@ == trail_perp(start, head, i as int, t as int, self.taper_end));
            self.points.set(i, new_pos);
            let ghost before = vertices@;
            vertices.push(Vec2 { x: new_pos.x - perp.x, y: new_pos.y - perp.y });
            vertices.push(Vec2 { x: new_pos.x + perp.x, y: new_pos.y + perp.y });
            assert(forall|j: int| 0 <= j < 2 * k ==> vertices@[j] == before[j]);
            k = k + 1;
        }
        vertices
    }
}

/// Colour of a trail: one colour, or a gradient from the head to the tail.
#[derive(Clone, Copy, Debug, PartialEq, Eq, Structural)]
pub enum TrailColour {
    Gradient { start: Rgba, end: Rgba },
    Single(Rgba),
}

/// One channel a fraction `i / n` of the way from `from` to `to`, rounded
/// toward `from`.
pub open spec fn lerp(from: u8, to: u8, i: int, n: int) -> int {
    from + div_trunc((to - from) * i, n)
}

/// The colour a fraction `i / n` of the way from `from` to `to`.
pub open spec fn blend(from: Rgba, to: Rgba, i: int, n: int) -> (int, int, int, int) {
    (lerp(from.r, to.r, i, n), lerp(from.g, to.g, i, n), lerp(from.b, to.b, i, n), lerp(from.a, to.a, i, n))
}

/// The tuple of a colour's channels.
pub open spec fn channels(c: Rgba) -> (int, int, int, int) {
    (c.r as int, c.g as int, c.b as int, c.a as int)
}

fn lerp_exec(from: u8, to: u8, i: u16, n: u16) -> (r: u8)
    requires
        i < n,
    ensures
        r == lerp(from, to, i as int, n as int),
{
    let d: i64 = to as i64 - from as i64;
    proof {
        assert(abs(d * i) <= n * abs(d as int)) by (nonlinear_arith)
            requires
                0 <= i < n,
                abs(d as int) == (if d >= 0 { d as int } else { -d }),
                abs(d * i) == (if d * i >= 0 { d * i } else { -(d * i) }),
        ;
        lemma_div_trunc_bound(d * i, n as int, abs(d as int));
        assert(-65535 * 255 <= d * i <= 65535 * 255) by (nonlinear_arith)
            requires
                -255 <= d <= 255,
                0 <= i < 65536,
        ;
        let q = div_trunc(d * i, n as int);
        if d >= 0 {
            assert(d * i >= 0) by (nonlinear_arith)
                requires
                    d >= 0,
                    i >= 0,
            ;
            vstd::arithmetic::div_mod::lemma_div_pos_is_pos(d * i, n as int);
        } else {
            assert(-(d * i) >= 0) by (nonlinear_arith)
                requires
                    d < 0,
                    i >= 0,
            ;
            vstd::arithmetic::div_mod::lemma_div_pos_is_pos(-(d * i), n as int);
        }
    }
    let p: i64 = d * (i as i64);
    let q: i64 = if p >= 0 {
        p / (n as i64)
    } else {
        -((-p) / (n as i64))
    };
    (from as i64 + q) as u8
}

impl TrailColour {
    pub fn gradient(start: Rgba, end: Rgba) -> (r: Self)
        ensures
            r == (TrailColour::Gradient { start, end }),
    {
        TrailColour::Gradient { start, end }
    }

    pub fn single(colour: Rgba) -> (r: Self)
        ensures
            r == TrailColour::Single(colour),
    {
        TrailColour::Single(colour)
    }

    /// Two colours for each of `segments` points, from the tail to the head:
    /// one colour throughout, or a gradient from `end` at the tail toward
    /// `start` at the head.
    pub fn get_vertex_colours(&self, segments: u16) -> (r: Vec<Rgba>)
        ensures
            r.len() == 2 * segments,
            forall|j: int|
                0 <= j < 2 * segments ==> channels(#[trigger] r@[j]) == match *self {
                    TrailColour::Single(c) => channels(c),
                    TrailColour::Gradient { start, end } => blend(end, start, j / 2, segments as int),
                },
    {
        match *self {
            TrailColour::Gradient { start, end } => Self::get_gradient(start, end, segments),
            TrailColour::Single(colour) => {
                let mut r: Vec<Rgba> = Vec::new();
                let mut k: usize = 0;
                while k < 2 * (segments as usize)
                    invariant
                        0 <= k <= 2 * segments,
                        r.len() == k,
                        forall|j: int| 0 <= j < k ==> #[trigger] r@[j] == colour,
                    decreases 2 * segments - k,
                {
                    r.push(colour);
                    k = k + 1;
                }
                r
            },
        }
    }

    /// For each of `segments` points, twice, the colour a fraction
    /// `i / segments` of the way from `end` to `start`.
    fn get_gradient(start: Rgba, end: Rgba, segments: u16) -> (r: Vec<Rgba>)
        ensures
            r.len() == 2 * segments,
            forall|j: int|
                0 <= j < 2 * segments ==> channels(#[trigger] r@[j]) == blend(
                    end,
                    start,
                    j / 2,
                    segments as int,
                ),
    {
        let mut colours: Vec<Rgba> = Vec::new();
        let mut i: u16 = 0;
        while i < segments
            invariant
                0 <= i <= segments,
                colours.len() == 2 * i,
                forall|j: int|
                    0 <= j < 2 * i ==> channels(#[trigger] colours@[j]) == blend(
                        end,
                        start,
                        j / 2,
                        segments as int,
                    ),
            decreases segments - i,
        {
            let c = Rgba {
                r: lerp_exec(end.r, start.r, i, segments),
                g: lerp_exec(end.g, start.g, i, segments),
                b: lerp_exec(end.b, start.b, i, segments),
                a: lerp_exec(end.a, start.a, i, segments),
            };
            colours.push(c);
            colours.push(c);
            proof {
                assert((2 * i) / 2 == i as int);
                assert((2 * i + 1) / 2 == i as int);
            }
            i = i + 1;
        }
        colours
    }
}

/// Settings of a trail before it is built.
pub struct TrailBuilder {
    /// How many points the trail has.
    pub segments: u16,
    /// The thickness of the trail at its thickest point.
    pub thickness: i64,
    /// Whether the trail narrows to nothing at its end.
    pub taper_end: bool,
    /// Where the trail starts.
    pub spawn_pos: Vec2,
    /// Offset from the followed agent, turned with the agent.
    pub local_offset: Vec2,
    /// Colour of the trail.
    pub colour: TrailColour,
    /// Depth at which the trail is drawn.
    pub depth: i64,
}

/// White, fully opaque.
pub open spec fn white() -> Rgba {
    Rgba { r: 255, g: 255, b: 255, a: 255 }
}

impl TrailBuilder {
    /// A builder with a hundred segments, a thickness of one world unit, a
    /// tapering end, no offset, a white colour and a depth of minus one.
    pub fn new(spawn_pos: Vec2) -> (r: Self)
        ensures
            r.segments == 100,
            r.thickness == UNIT,
            r.taper_end,
            r.spawn_pos == spawn_pos,
            r.local_offset == (Vec2 { x: 0, y: 0 }),
            r.colour == TrailColour::Single(white()),
            r.depth == -UNIT,
    {
        TrailBuilder {
            segments: 100,
            thickness: UNIT,
            taper_end: true,
            spawn_pos,
            local_offset: Vec2 { x: 0, y: 0 },
            colour: TrailColour::single(Rgba { r: 255, g: 255, b: 255, a: 255 }),
            depth: -UNIT,
        }
    }

    /// The trail, with all its points at the spawn position and tapering as
    /// the builder says, and the colours of its vertices.
    pub fn build(self) -> (r: (SimpleTrail2D, Vec<Rgba>))
        ensures
            r.0.points@ == Seq::new(self.segments as nat, |_j: int| self.spawn_pos),
            r.0.thickness == self.thickness,
            r.0.local_offset == self.local_offset,
            r.0.taper_end == self.taper_end,
            r.1.len() == 2 * self.segments,
            forall|j: int|
                0 <= j < 2 * self.segments ==> channels(#[trigger] r.1@[j]) == match self.colour {
                    TrailColour::Single(c) => channels(c),
                    TrailColour::Gradient { start, end } => blend(
                        end,
                        start,
                        j / 2,
                        self.segments as int,
                    ),
                },
    {
        let mut trail = SimpleTrail2D::new(self.segments, self.thickness, self.spawn_pos, self.local_offset);
        trail.taper_end = self.taper_end;
        let colours = self.colour.get_vertex_colours(self.segments);
        (trail, colours)
    }

    /// Sets the number of segments.
    pub fn with_segments(self, segments: u16) -> (r: Self)
        ensures
            r == (TrailBuilder { segments, ..self }),
    {
        TrailBuilder { segments, ..self }
    }

    /// Sets the thickness.
    pub fn with_thickness(self, thickness: i64) -> (r: Self)
        ensures
            r == (TrailBuilder { thickness, ..self }),
    {
        TrailBuilder { thickness, ..self }
    }

    /// Sets whether the trail tapers at its end.
    pub fn with_taper_end(self, taper_end: bool) -> (r: Self)
        ensures
            r == (TrailBuilder { taper_end, ..self }),
    {
        TrailBuilder { taper_end, ..self }
    }

    /// Sets the offset from the followed agent.
    pub fn with_local_offset(self, local_offset: Vec2) -> (r: Self)
        ensures
            r == (TrailBuilder { local_offset, ..self }),
    {
        TrailBuilder { local_offset, ..self }
    }

    /// Sets the colour.
    pub fn with_colour(self, colour: TrailColour) -> (r: Self)
        ensures
            r == (TrailBuilder { colour, ..self }),
    {
        TrailBuilder { colour, ..self }
    }

    /// Sets the depth.
    pub fn with_depth(self, depth: i64) -> (r: Self)
        ensures
            r == (TrailBuilder { depth, ..self }),
    {
        TrailBuilder { depth, ..self }
    }
}

} // verus!

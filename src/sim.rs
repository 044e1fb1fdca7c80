use crate::boid::{Acceleration, Boid, Bounds, Settings};
use crate::flock::{
    acceleration_spec, boid_flock, flock_wf, gather, neighbor_sums, same_but_acceleration,
};
use crate::motion::{boid_update, integrable, integrated, TIME_SCALE};
use crate::player::{move_player, player_acceleration_spec, players, PlayerInput};
use crate::vector::Vec2;
use vstd::prelude::*;

verus! {

/// The agent `j` of `s` with the acceleration of this tick: the player's
/// from the input when there is exactly one player (else it keeps its
/// acceleration), every other agent's from the flocking rules.
pub open spec fn steered(
    s: Seq<Boid>,
    j: int,
    input: PlayerInput,
    st: Settings,
    bounds: Bounds,
    dt: int,
) -> Boid {
    let a = if s[j].is_player {
        if players(s) == 1 {
            player_acceleration_spec(input, s[j].velocity.0@, dt)
        } else {
            s[j].acceleration.0@
        }
    } else {
        acceleration_spec(s, j, st, bounds)
    };
    Boid { acceleration: Acceleration(Vec2 { x: a.0 as i64, y: a.1 as i64 }), ..s[j] }
}

/// Two flocks whose agents agree on position, velocity and weight gather
/// the same sums: the scan reads nothing else.
proof fn lemma_sums_read_motion_only(s1: Seq<Boid>, s2: Seq<Boid>, i: int, k: int, st: Settings)
    requires
        s1.len() == s2.len(),
        0 <= i < s1.len(),
        k <= s1.len(),
        forall|j: int|
            0 <= j < s1.len() ==> (#[trigger] s1[j]).position == s2[j].position
                && s1[j].velocity == s2[j].velocity && s1[j].weight == s2[j].weight,
    ensures
        neighbor_sums(s1, i, k, st) == neighbor_sums(s2, i, k, st),
    decreases k,
{
    if k > 0 {
        lemma_sums_read_motion_only(s1, s2, i, k - 1, st);
        assert(s1[i].position == s2[i].position);
        if k - 1 != i {
            assert(s1[k - 1].position == s2[k - 1].position);
            let m = neighbor_sums(s1, i, k - 1, st);
            assert(gather(m, s1[i], s1[k - 1], st) == gather(m, s2[i], s2[k - 1], st));
        }
    }
}

/// One tick of the simulation: the player steers from the input, every
/// other agent from one snapshot of the flock, then every agent moves.
pub fn tick(
    boids: &mut Vec<Boid>,
    input: &PlayerInput,
    settings: &Settings,
    bounds: &Bounds,
    dt: i64,
)
    requires
        flock_wf(old(boids)@),
        forall|j: int| 0 <= j < old(boids).len() ==> integrable(#[trigger] old(boids)@[j]),
        settings.wf(),
        0 <= dt <= TIME_SCALE,
    ensures
        final(boids).len() == old(boids).len(),
        forall|j: int|
            0 <= j < old(boids).len() ==> integrated(
                #[trigger] steered(old(boids)@, j, *input, *settings, *bounds, dt as int),
                final(boids)@[j],
                dt as int,
            ),
{
    let ghost start = boids@;
    move_player(boids, input, dt);
    let ghost mid = boids@;
    assert(forall|j: int| 0 <= j < mid.len() ==> (#[trigger] mid[j]).wf() && mid[j] == Boid {
        acceleration: mid[j].acceleration,
        ..start[j]
    });
    assert(flock_wf(mid));
    boid_flock(boids, settings, bounds);
    let ghost flocked = boids@;
    assert forall|j: int| 0 <= j < flocked.len() implies integrable(#[trigger] flocked[j]) by {
        assert(same_but_acceleration(mid[j], flocked[j]));
        assert(mid[j].wf());
        assert(integrable(start[j]));
    }
    assert forall|j: int|
        0 <= j < flocked.len() implies #[trigger] flocked[j] == steered(
            start,
            j,
            *input,
            *settings,
            *bounds,
            dt as int,
        ) by {
        assert(same_but_acceleration(mid[j], flocked[j]));
        if !start[j].is_player {
            lemma_sums_read_motion_only(mid, start, j, mid.len() as int, *settings);
        }
    }
    boid_update(boids, dt);
    assert forall|j: int| 0 <= j < start.len() implies integrated(
        #[trigger] steered(start, j, *input, *settings, *bounds, dt as int),
        boids@[j],
        dt as int,
    ) by {
        assert(integrated(flocked[j], boids@[j], dt as int));
    }
}

} // verus!

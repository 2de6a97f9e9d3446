use vstd::prelude::*;

use crate::entity::{asteroid_model, entity_on_screen, moved_entity, EntityM};
use crate::geom::{rects_overlap, RectM, SCREEN_HEIGHT, SCREEN_WIDTH};
use crate::sim::{
    hit_by_any, marked, mid_asteroids, mid_projectiles, moved_all, next_frames, pruned,
    snapshot_spec, spawn_frame, spec_advance, step_down, step_left, step_player, step_right,
    step_up, swept, with_spawn, Input, SimM, FRAME_WRAP, SPAWN_FRAME_A, SPAWN_FRAME_B, TOP_LIMIT,
};

verus! {

/// The wall rule of each direction: a step whose edge has already crossed
/// the boundary in that direction's sense is dropped whole, and the frame's
/// combined movement never pushes the player further past such a boundary.
pub proof fn lemma_player_wall_rules(p: RectM, input: Input)
    ensures
        p.y < TOP_LIMIT ==> step_up(p, input.up) == p,
        (p.y > 0 && p.y + p.h > SCREEN_HEIGHT) ==> step_down(p, input.down) == p,
        p.x < 0 ==> step_left(p, input.left) == p,
        (p.x > 0 && p.x + p.w > SCREEN_WIDTH) ==> step_right(p, input.right) == p,
        p.y < TOP_LIMIT ==> step_player(p, input).y >= p.y,
        (p.y > 0 && p.y + p.h > SCREEN_HEIGHT) ==> step_player(p, input).y <= p.y,
        p.x < 0 ==> step_player(p, input).x >= p.x,
        (p.x > 0 && p.x + p.w > SCREEN_WIDTH) ==> step_player(p, input).x <= p.x,
{
}

/// Off-screen pruning: after a frame, every asteroid and every projectile
/// still in its collection sits strictly inside the arena's height band; an
/// entity whose motion carried it outside is gone.
pub proof fn lemma_offscreen_absent(s: SimM, input: Input, x: int)
    ensures
        forall|i: int|
            0 <= i < spec_advance(s, input, x).asteroids.len() ==> entity_on_screen(
                #[trigger] spec_advance(s, input, x).asteroids[i],
            ),
        forall|i: int|
            0 <= i < spec_advance(s, input, x).projectiles.len() ==> entity_on_screen(
                #[trigger] spec_advance(s, input, x).projectiles[i],
            ),
{
    broadcast use vstd::seq_lib::group_filter_ensures;
    broadcast use vstd::prelude::Seq::lemma_filter_contains_rev;

    let mid_a = mid_asteroids(s, x);
    let mid_p = mid_projectiles(s);
    let res_a = spec_advance(s, input, x).asteroids;
    let res_p = spec_advance(s, input, x).projectiles;
    assert forall|i: int| 0 <= i < res_a.len() implies entity_on_screen(#[trigger] res_a[i]) by {
        let e = res_a[i];
        assert(res_a.contains(e));
        assert(marked(mid_a, mid_p).contains(e));
        let k = choose|k: int| 0 <= k < marked(mid_a, mid_p).len() && marked(mid_a, mid_p)[k] == e;
        assert(entity_on_screen(mid_a[k]));
        assert(e.rect == mid_a[k].rect);
    }
    assert forall|i: int| 0 <= i < res_p.len() implies entity_on_screen(#[trigger] res_p[i]) by {
        let e = res_p[i];
        assert(res_p.contains(e));
        assert(marked(mid_p, mid_a).contains(e));
        let k = choose|k: int| 0 <= k < marked(mid_p, mid_a).len() && marked(mid_p, mid_a)[k] == e;
        assert(entity_on_screen(mid_p[k]));
        assert(e.rect == mid_p[k].rect);
    }
}

/// Collision symmetry, destructive half: when an asteroid and a projectile
/// of the collision-time collections overlap, the frame sweeps both out —
/// neither value is in its collection afterwards.
pub proof fn lemma_collision_sweeps_both(s: SimM, input: Input, x: int, i: int, j: int)
    requires
        0 <= i < mid_asteroids(s, x).len(),
        0 <= j < mid_projectiles(s).len(),
        rects_overlap(mid_asteroids(s, x)[i].rect, mid_projectiles(s)[j].rect),
    ensures
        !spec_advance(s, input, x).asteroids.contains(mid_asteroids(s, x)[i]),
        !spec_advance(s, input, x).projectiles.contains(mid_projectiles(s)[j]),
{
    broadcast use vstd::seq_lib::group_filter_ensures;
    broadcast use vstd::prelude::Seq::lemma_filter_contains_rev;

    let mid_a = mid_asteroids(s, x);
    let mid_p = mid_projectiles(s);
    let a = mid_a[i];
    let p = mid_p[j];
    let res_a = swept(marked(mid_a, mid_p));
    let res_p = swept(marked(mid_p, mid_a));
    if res_a.contains(a) {
        let m = choose|m: int| 0 <= m < res_a.len() && res_a[m] == a;
        assert(!res_a[m].collided);
        assert(marked(mid_a, mid_p).contains(a));
        let k = choose|k: int|
            0 <= k < marked(mid_a, mid_p).len() && marked(mid_a, mid_p)[k] == a;
        assert(mid_a[k].rect == a.rect);
        assert(rects_overlap(mid_p[j].rect, mid_a[k].rect));
        assert(hit_by_any(mid_a[k].rect, mid_p));
        assert(a.collided);
    }
    if res_p.contains(p) {
        let m = choose|m: int| 0 <= m < res_p.len() && res_p[m] == p;
        assert(!res_p[m].collided);
        assert(marked(mid_p, mid_a).contains(p));
        let k = choose|k: int|
            0 <= k < marked(mid_p, mid_a).len() && marked(mid_p, mid_a)[k] == p;
        assert(mid_p[k].rect == p.rect);
        assert(rects_overlap(mid_a[i].rect, mid_p[k].rect));
        assert(hit_by_any(mid_p[k].rect, mid_a));
        assert(p.collided);
    }
}

/// Collision symmetry, conservative half: an asteroid of the
/// collision-time collection that was not already marked and overlaps no
/// projectile survives the frame untouched.
pub proof fn lemma_clear_asteroid_survives(s: SimM, input: Input, x: int, i: int)
    requires
        0 <= i < mid_asteroids(s, x).len(),
        !mid_asteroids(s, x)[i].collided,
        forall|j: int|
            0 <= j < mid_projectiles(s).len() ==> !rects_overlap(
                mid_asteroids(s, x)[i].rect,
                (#[trigger] mid_projectiles(s)[j]).rect,
            ),
    ensures
        spec_advance(s, input, x).asteroids.contains(mid_asteroids(s, x)[i]),
{
    broadcast use vstd::seq_lib::group_filter_ensures;

    let mid_a = mid_asteroids(s, x);
    let mid_p = mid_projectiles(s);
    let a = mid_a[i];
    if hit_by_any(a.rect, mid_p) {
        let j = choose|j: int| 0 <= j < mid_p.len() && rects_overlap(mid_p[j].rect, a.rect);
        assert(!rects_overlap(a.rect, mid_p[j].rect));
        assert(false);
    }
    assert(marked(mid_a, mid_p)[i] =~= a);
    assert(swept(marked(mid_a, mid_p)).contains(marked(mid_a, mid_p)[i]));
}

/// Collision symmetry, conservative half for projectiles: a projectile of
/// the collision-time collection that was not already marked and overlaps
/// no asteroid survives the frame untouched.
pub proof fn lemma_clear_projectile_survives(s: SimM, input: Input, x: int, j: int)
    requires
        0 <= j < mid_projectiles(s).len(),
        !mid_projectiles(s)[j].collided,
        forall|i: int|
            0 <= i < mid_asteroids(s, x).len() ==> !rects_overlap(
                (#[trigger] mid_asteroids(s, x)[i]).rect,
                mid_projectiles(s)[j].rect,
            ),
    ensures
        spec_advance(s, input, x).projectiles.contains(mid_projectiles(s)[j]),
{
    broadcast use vstd::seq_lib::group_filter_ensures;

    let mid_a = mid_asteroids(s, x);
    let mid_p = mid_projectiles(s);
    let p = mid_p[j];
    if hit_by_any(p.rect, mid_a) {
        let i = choose|i: int| 0 <= i < mid_a.len() && rects_overlap(mid_a[i].rect, p.rect);
        assert(!rects_overlap(mid_a[i].rect, p.rect));
        assert(false);
    }
    assert(marked(mid_p, mid_a)[j] =~= p);
    assert(swept(marked(mid_p, mid_a)).contains(marked(mid_p, mid_a)[j]));
}

/// Pruning removes nothing from a collection that is entirely on screen.
pub proof fn lemma_pruned_identity(s: Seq<EntityM>)
    requires
        forall|i: int| 0 <= i < s.len() ==> entity_on_screen(#[trigger] s[i]),
    ensures
        pruned(s) == s,
    decreases s.len(),
{
    reveal(Seq::filter);
    if s.len() > 0 {
        assert(forall|i: int|
            0 <= i < s.drop_last().len() ==> entity_on_screen(#[trigger] s.drop_last()[i]));
        lemma_pruned_identity(s.drop_last());
        assert(entity_on_screen(s.last()));
        assert(pruned(s) =~= s);
    } else {
        assert(pruned(s) =~= s);
    }
}

/// Sweeping removes nothing from a collection with no marked entity.
pub proof fn lemma_swept_identity(s: Seq<EntityM>)
    requires
        forall|i: int| 0 <= i < s.len() ==> !(#[trigger] s[i]).collided,
    ensures
        swept(s) == s,
    decreases s.len(),
{
    reveal(Seq::filter);
    if s.len() > 0 {
        assert(forall|i: int| 0 <= i < s.drop_last().len() ==> !(#[trigger] s.drop_last()[i]).collided);
        lemma_swept_identity(s.drop_last());
        assert(!s.last().collided);
        assert(swept(s) =~= s);
    } else {
        assert(swept(s) =~= s);
    }
}

/// On a frame where nothing leaves the screen, nothing is already marked
/// and nothing collides, the asteroid count changes exactly by the spawn:
/// one more on a trigger frame, unchanged otherwise.
pub proof fn lemma_quiet_frame_asteroid_count(s: SimM, input: Input, x: int)
    requires
        forall|i: int|
            0 <= i < s.asteroids.len() ==> entity_on_screen(
                moved_entity(#[trigger] s.asteroids[i]),
            ),
        forall|i: int| 0 <= i < s.asteroids.len() ==> !(#[trigger] s.asteroids[i]).collided,
        forall|i: int, j: int|
            #![auto]
            0 <= i < mid_asteroids(s, x).len() && 0 <= j < mid_projectiles(s).len()
                ==> !rects_overlap(mid_asteroids(s, x)[i].rect, mid_projectiles(s)[j].rect),
    ensures
        spec_advance(s, input, x).asteroids.len() == s.asteroids.len() + (if spawn_frame(s.frames) {
            1int
        } else {
            0int
        }),
{
    let sp = with_spawn(moved_all(s.asteroids), s.frames, x);
    assert forall|i: int| 0 <= i < sp.len() implies entity_on_screen(#[trigger] sp[i]) by {
        if i < moved_all(s.asteroids).len() {
            assert(sp[i] == moved_entity(s.asteroids[i]));
        } else {
            assert(sp[i] == asteroid_model(x));
        }
    }
    lemma_pruned_identity(sp);
    let mid_a = mid_asteroids(s, x);
    let mid_p = mid_projectiles(s);
    assert(mid_a == sp);
    let mk = marked(mid_a, mid_p);
    assert forall|i: int| 0 <= i < mk.len() implies !(#[trigger] mk[i]).collided by {
        assert(!mid_a[i].collided) by {
            if i < moved_all(s.asteroids).len() {
                assert(mid_a[i] == moved_entity(s.asteroids[i]));
            } else {
                assert(mid_a[i] == asteroid_model(x));
            }
        }
        if hit_by_any(mid_a[i].rect, mid_p) {
            let j = choose|j: int|
                0 <= j < mid_p.len() && rects_overlap(mid_p[j].rect, mid_a[i].rect);
            assert(!rects_overlap(mid_a[i].rect, mid_p[j].rect));
            assert(false);
        }
    }
    lemma_swept_identity(mk);
}

/// The frame counter of a run that starts a cycle: after `n` frames it
/// reads exactly `n`, as long as the cycle has not wrapped.
pub proof fn lemma_frames_count_up(n: nat)
    requires
        n <= FRAME_WRAP,
    ensures
        frames_after(0, n) == n,
    decreases n,
{
    if n > 0 {
        lemma_frames_count_up((n - 1) as nat);
    }
}

/// How often the spawner fires over the first `n` frames of a cycle: once
/// after passing each trigger value.
pub proof fn lemma_spawns_formula(n: nat)
    requires
        n <= FRAME_WRAP + 1,
    ensures
        spawns_up_to(0, n) == (if n > SPAWN_FRAME_A {
            1int
        } else {
            0int
        }) + (if n > SPAWN_FRAME_B {
            1int
        } else {
            0int
        }),
    decreases n,
{
    if n > 0 {
        lemma_spawns_formula((n - 1) as nat);
        lemma_frames_count_up((n - 1) as nat);
    }
}

/// Spawn determinism of count: over one full frame cycle started at zero,
/// the spawner fires exactly twice — once at each trigger value — whatever
/// horizontal positions it draws.
pub proof fn lemma_two_spawns_per_cycle()
    ensures
        spawns_up_to(0, (FRAME_WRAP + 1) as nat) == 2,
{
    lemma_spawns_formula((FRAME_WRAP + 1) as nat);
}

/// The frame counter after `n` frames from `f0`, each frame advancing it
/// by `next_frames`.
pub open spec fn frames_after(f0: int, n: nat) -> int
    decreases n,
{
    if n == 0 {
        f0
    } else {
        next_frames(frames_after(f0, (n - 1) as nat))
    }
}

/// How many of the first `n` frames of a run from `f0` are trigger frames,
/// i.e. append an asteroid.
pub open spec fn spawns_up_to(f0: int, n: nat) -> int
    decreases n,
{
    if n == 0 {
        0
    } else {
        spawns_up_to(f0, (n - 1) as nat) + (if spawn_frame(frames_after(f0, (n - 1) as nat)) {
            1int
        } else {
            0int
        })
    }
}

/// A quiet run of frames, one `spec_advance` step after the other: after
/// `n` steps from a state whose counter reads zero, the counter reads
/// `frames_after` and the asteroid count has grown by exactly the number
/// of trigger frames passed — whatever horizontal positions the spawner
/// drew, and whatever the player did.
pub proof fn lemma_quiet_run_spawn_count(states: Seq<SimM>, inputs: Seq<Input>, xs: Seq<int>, n: nat)
    requires
        n < states.len(),
        n <= inputs.len(),
        n <= xs.len(),
        n <= FRAME_WRAP + 1,
        states[0].frames == 0,
        forall|k: int|
            #![auto]
            0 <= k < n ==> states[k + 1] == spec_advance(states[k], inputs[k], xs[k]),
        forall|k: int, i: int|
            #![auto]
            0 <= k < n && 0 <= i < states[k].asteroids.len() ==> entity_on_screen(
                moved_entity(states[k].asteroids[i]),
            ) && !states[k].asteroids[i].collided,
        forall|k: int, i: int, j: int|
            #![auto]
            0 <= k < n && 0 <= i < mid_asteroids(states[k], xs[k]).len() && 0 <= j
                < mid_projectiles(states[k]).len() ==> !rects_overlap(
                mid_asteroids(states[k], xs[k])[i].rect,
                mid_projectiles(states[k])[j].rect,
            ),
    ensures
        states[n as int].frames == frames_after(0, n),
        states[n as int].asteroids.len() == states[0].asteroids.len() + spawns_up_to(0, n),
    decreases n,
{
    if n > 0 {
        lemma_quiet_run_spawn_count(states, inputs, xs, (n - 1) as nat);
        lemma_frames_count_up((n - 1) as nat);
        lemma_quiet_frame_asteroid_count(
            states[n - 1],
            inputs[n - 1],
            xs[n - 1],
        );
    }
}

/// Spawn determinism of count over a whole run: a quiet cycle of
/// `FRAME_WRAP + 1` frames started at counter zero ends with exactly two
/// asteroids more than it began with.
pub proof fn lemma_two_spawns_per_cycle_run(states: Seq<SimM>, inputs: Seq<Input>, xs: Seq<int>)
    requires
        states.len() == FRAME_WRAP + 2,
        inputs.len() >= FRAME_WRAP + 1,
        xs.len() >= FRAME_WRAP + 1,
        states[0].frames == 0,
        forall|k: int|
            #![auto]
            0 <= k < FRAME_WRAP + 1 ==> states[k + 1] == spec_advance(states[k], inputs[k], xs[k]),
        forall|k: int, i: int|
            #![auto]
            0 <= k < FRAME_WRAP + 1 && 0 <= i < states[k].asteroids.len() ==> entity_on_screen(
                moved_entity(states[k].asteroids[i]),
            ) && !states[k].asteroids[i].collided,
        forall|k: int, i: int, j: int|
            #![auto]
            0 <= k < FRAME_WRAP + 1 && 0 <= i < mid_asteroids(states[k], xs[k]).len() && 0 <= j
                < mid_projectiles(states[k]).len() ==> !rects_overlap(
                mid_asteroids(states[k], xs[k])[i].rect,
                mid_projectiles(states[k])[j].rect,
            ),
    ensures
        states[(FRAME_WRAP + 1) as int].asteroids.len() == states[0].asteroids.len() + 2,
{
    lemma_quiet_run_spawn_count(states, inputs, xs, (FRAME_WRAP + 1) as nat);
    lemma_spawns_formula((FRAME_WRAP + 1) as nat);
}

/// Rendering is a pure read: two snapshots of the same state are the same
/// list of drawables.
pub proof fn lemma_render_deterministic(s1: SimM, s2: SimM)
    requires
        s1 == s2,
    ensures
        snapshot_spec(s1) == snapshot_spec(s2),
{
}

} // verus!


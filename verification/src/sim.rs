use vstd::prelude::*;

use crate::entity::{
    asteroid_model, asteroid_wf, entity_on_screen, fresh_asteroid, moved_entity, projectile_model,
    projectile_wf, random_in_range, Asteroid, EntityM, Projectile, PLAYER_VELOCITY,
};
use crate::geom::{rect_wf, rects_overlap, Rect, RectM, SCREEN_HEIGHT, SCREEN_WIDTH};

verus! {

/// The player may not move up once its top edge is strictly above this
/// line.
pub const TOP_LIMIT: i32 = 90;

/// Width of the player's rectangle.
pub const PLAYER_WIDTH: i32 = 10;

/// Height of the player's rectangle.
pub const PLAYER_HEIGHT: i32 = 20;

/// The frame counter counts up to this value and then wraps to zero, so one
/// cycle is `FRAME_WRAP + 1` frames long.
pub const FRAME_WRAP: u32 = 60;

/// First frame-counter value that triggers an asteroid spawn.
pub const SPAWN_FRAME_A: u32 = 20;

/// Second frame-counter value that triggers an asteroid spawn.
pub const SPAWN_FRAME_B: u32 = 50;

/// The held movement keys of one frame.
#[derive(Clone, Copy, Debug, PartialEq, Eq, Structural)]
pub struct Input {
    pub up: bool,
    pub down: bool,
    pub left: bool,
    pub right: bool,
}

/// The color a drawable rectangle is tagged with for the renderer.
#[derive(Clone, Copy, Debug, PartialEq, Eq, Structural)]
pub enum Color {
    White,
    Red,
}

/// Mathematical model of the whole simulation state.
#[verifier::ext_equal]
pub ghost struct SimM {
    pub player: RectM,
    pub asteroids: Seq<EntityM>,
    pub projectiles: Seq<EntityM>,
    pub frames: int,
}

/// The simulation: the player's rectangle, the two live entity collections
/// and the frame counter that paces the spawner.
pub struct Simulation {
    pub player: Rect,
    pub asteroids: Vec<Asteroid>,
    pub projectiles: Vec<Projectile>,
    pub frames: u32,
}

/// The model of a sequence of asteroids.
pub open spec fn asts_view(s: Seq<Asteroid>) -> Seq<EntityM> {
    s.map_values(|a: Asteroid| a@)
}

/// The model of a sequence of projectiles.
pub open spec fn projs_view(s: Seq<Projectile>) -> Seq<EntityM> {
    s.map_values(|p: Projectile| p@)
}

impl View for Simulation {
    type V = SimM;

    open spec fn view(&self) -> SimM {
        SimM {
            player: self.player@,
            asteroids: asts_view(self.asteroids@),
            projectiles: projs_view(self.projectiles@),
            frames: self.frames as int,
        }
    }
}

/// Every asteroid of the collection is well formed.
pub open spec fn asteroids_wf(s: Seq<EntityM>) -> bool {
    forall|i: int| 0 <= i < s.len() ==> asteroid_wf(#[trigger] s[i])
}

/// Every projectile of the collection is well formed.
pub open spec fn projectiles_wf(s: Seq<EntityM>) -> bool {
    forall|i: int| 0 <= i < s.len() ==> projectile_wf(#[trigger] s[i])
}

/// Well-formedness of the simulation state: bounded player rectangle, well
/// formed entities, frame counter inside its cycle. Constructors establish
/// it and `advance_frame` preserves it.
pub open spec fn sim_wf(s: SimM) -> bool {
    &&& rect_wf(s.player)
    &&& asteroids_wf(s.asteroids)
    &&& projectiles_wf(s.projectiles)
    &&& 0 <= s.frames <= FRAME_WRAP
}

/// One upward step: applied only when the player's top edge is not yet
/// strictly above the stop line. A step that would cross is dropped whole.
pub open spec fn step_up(p: RectM, held: bool) -> RectM {
    if held && p.y >= TOP_LIMIT {
        RectM { y: p.y - PLAYER_VELOCITY, ..p }
    } else {
        p
    }
}

/// One downward step: dropped only when the player is below the top edge
/// and its bottom edge is already past the arena's bottom.
pub open spec fn step_down(p: RectM, held: bool) -> RectM {
    if held && !(p.y > 0 && p.y + p.h > SCREEN_HEIGHT) {
        RectM { y: p.y + PLAYER_VELOCITY, ..p }
    } else {
        p
    }
}

/// One step to the left: applied only while the left edge has not yet
/// crossed the arena's left boundary.
pub open spec fn step_left(p: RectM, held: bool) -> RectM {
    if held && p.x >= 0 {
        RectM { x: p.x - PLAYER_VELOCITY, ..p }
    } else {
        p
    }
}

/// One step to the right: dropped only when the player is right of the left
/// edge and its right edge is already past the arena's right boundary.
pub open spec fn step_right(p: RectM, held: bool) -> RectM {
    if held && !(p.x > 0 && p.x + p.w > SCREEN_WIDTH) {
        RectM { x: p.x + PLAYER_VELOCITY, ..p }
    } else {
        p
    }
}

/// The player's rectangle after one frame of input: the four directions are
/// applied in the fixed order up, down, left, right, each on the result of
/// the one before.
pub open spec fn step_player(p: RectM, input: Input) -> RectM {
    step_right(step_left(step_down(step_up(p, input.up), input.down), input.left), input.right)
}

/// Whether this frame-counter value triggers an asteroid spawn.
pub open spec fn spawn_frame(f: int) -> bool {
    f == SPAWN_FRAME_A || f == SPAWN_FRAME_B
}

/// The frame counter of the next frame: counts up to `FRAME_WRAP`, then
/// wraps to zero.
pub open spec fn next_frames(f: int) -> int {
    if f < FRAME_WRAP {
        f + 1
    } else {
        0
    }
}

/// Every entity of the collection after one frame of drift.
pub open spec fn moved_all(s: Seq<EntityM>) -> Seq<EntityM> {
    s.map_values(|e: EntityM| moved_entity(e))
}

/// The asteroid collection after the spawn step: one fresh asteroid at
/// horizontal position `x` is appended on a trigger frame, nothing else.
pub open spec fn with_spawn(s: Seq<EntityM>, frames: int, x: int) -> Seq<EntityM> {
    if spawn_frame(frames) {
        s.push(asteroid_model(x))
    } else {
        s
    }
}

/// The collection with every off-screen entity removed.
pub open spec fn pruned(s: Seq<EntityM>) -> Seq<EntityM> {
    s.filter(|e: EntityM| entity_on_screen(e))
}

/// Whether the rectangle overlaps some entity of the collection.
pub open spec fn hit_by_any(r: RectM, others: Seq<EntityM>) -> bool {
    exists|j: int| #![auto] 0 <= j < others.len() && rects_overlap(others[j].rect, r)
}

/// The collection after the collision scan: an entity is marked collided
/// when it already was, or when it overlaps some entity of the other
/// collection. Rectangles and velocities stay untouched.
pub open spec fn marked(s: Seq<EntityM>, others: Seq<EntityM>) -> Seq<EntityM> {
    s.map_values(
        |e: EntityM| (EntityM { collided: e.collided || hit_by_any(e.rect, others), ..e }),
    )
}

/// The collection with every marked entity swept out.
pub open spec fn swept(s: Seq<EntityM>) -> Seq<EntityM> {
    s.filter(|e: EntityM| !e.collided)
}

/// The asteroid collection as it stands when collisions are scanned: moved,
/// extended by a spawn on a trigger frame, and pruned of off-screen
/// asteroids.
pub open spec fn mid_asteroids(s: SimM, x: int) -> Seq<EntityM> {
    pruned(with_spawn(moved_all(s.asteroids), s.frames, x))
}

/// The projectile collection as it stands when collisions are scanned:
/// moved and pruned of off-screen projectiles.
pub open spec fn mid_projectiles(s: SimM) -> Seq<EntityM> {
    pruned(moved_all(s.projectiles))
}

/// Whether some live asteroid overlaps the player this frame; reported by
/// `advance_frame` as a signal and acted on no further.
pub open spec fn spec_player_hit(s: SimM, input: Input, x: int) -> bool {
    hit_by_any(step_player(s.player, input), mid_asteroids(s, x))
}

/// The whole frame update as a function of the previous state, the held
/// keys, and the horizontal position `x` the spawner would use: player
/// movement, then asteroid motion, spawn and prune, projectile motion and
/// prune, the all-pairs collision marking, the sweep, and the frame-counter
/// update.
pub open spec fn spec_advance(s: SimM, input: Input, x: int) -> SimM {
    let asts_mid = mid_asteroids(s, x);
    let projs_mid = mid_projectiles(s);
    SimM {
        player: step_player(s.player, input),
        asteroids: swept(marked(asts_mid, projs_mid)),
        projectiles: swept(marked(projs_mid, asts_mid)),
        frames: next_frames(s.frames),
    }
}

/// The model of the list of drawables the renderer receives.
pub open spec fn drawables_view(s: Seq<(Rect, Color)>) -> Seq<(RectM, Color)> {
    s.map_values(|t: (Rect, Color)| (t.0@, t.1))
}

/// What one frame is drawn from: the player's rectangle, then every live
/// asteroid, both white, then every live projectile in red.
pub open spec fn snapshot_spec(s: SimM) -> Seq<(RectM, Color)> {
    seq![(s.player, Color::White)] + s.asteroids.map_values(|e: EntityM| (e.rect, Color::White))
        + s.projectiles.map_values(|e: EntityM| (e.rect, Color::Red))
}

/// Appending an entity and pruning commutes with pruning first and
/// appending only a still-on-screen entity.
pub proof fn lemma_pruned_push(s: Seq<EntityM>, x: EntityM)
    ensures
        pruned(s.push(x)) == (if entity_on_screen(x) {
            pruned(s).push(x)
        } else {
            pruned(s)
        }),
{
    reveal(Seq::filter);
    assert(s.push(x).drop_last() =~= s);
    assert(s.push(x).last() == x);
}

/// Appending an entity and sweeping commutes with sweeping first and
/// appending only an unmarked entity.
pub proof fn lemma_swept_push(s: Seq<EntityM>, x: EntityM)
    ensures
        swept(s.push(x)) == (if !x.collided {
            swept(s).push(x)
        } else {
            swept(s)
        }),
{
    reveal(Seq::filter);
    assert(s.push(x).drop_last() =~= s);
    assert(s.push(x).last() == x);
}

/// The asteroid collection at collision time is well formed: motion keeps
/// everything but the vertical position, the spawned asteroid has the fixed
/// shape, and pruning has already bounded the vertical position.
pub proof fn lemma_mid_asteroids_wf(s: SimM, x: int)
    requires
        sim_wf(s),
        0 <= x < SCREEN_WIDTH,
    ensures
        asteroids_wf(mid_asteroids(s, x)),
{
    broadcast use vstd::seq_lib::group_filter_ensures;
    broadcast use vstd::prelude::Seq::lemma_filter_contains_rev;

    let sp = with_spawn(moved_all(s.asteroids), s.frames, x);
    let mid = mid_asteroids(s, x);
    assert forall|i: int| 0 <= i < mid.len() implies asteroid_wf(#[trigger] mid[i]) by {
        let e = mid[i];
        assert(entity_on_screen(e));
        assert(mid.contains(e));
        assert(sp.contains(e));
        let k = choose|k: int| 0 <= k < sp.len() && sp[k] == e;
        if k < moved_all(s.asteroids).len() {
            assert(asteroid_wf(s.asteroids[k]));
            assert(e == moved_entity(s.asteroids[k]));
        } else {
            assert(e == asteroid_model(x));
        }
    }
}

/// The projectile collection at collision time is well formed, for the
/// same reasons as the asteroid collection.
pub proof fn lemma_mid_projectiles_wf(s: SimM)
    requires
        sim_wf(s),
    ensures
        projectiles_wf(mid_projectiles(s)),
{
    broadcast use vstd::seq_lib::group_filter_ensures;
    broadcast use vstd::prelude::Seq::lemma_filter_contains_rev;

    let mv = moved_all(s.projectiles);
    let mid = mid_projectiles(s);
    assert forall|i: int| 0 <= i < mid.len() implies projectile_wf(#[trigger] mid[i]) by {
        let e = mid[i];
        assert(entity_on_screen(e));
        assert(mid.contains(e));
        assert(mv.contains(e));
        let k = choose|k: int| 0 <= k < mv.len() && mv[k] == e;
        assert(projectile_wf(s.projectiles[k]));
        assert(e == moved_entity(s.projectiles[k]));
    }
}

/// Marking changes no rectangle and no velocity, so it keeps both
/// collections well formed; sweeping only drops elements. Together: one
/// frame preserves well-formedness of the whole state.
pub proof fn lemma_advance_wf(s: SimM, input: Input, x: int)
    requires
        sim_wf(s),
        0 <= x < SCREEN_WIDTH,
    ensures
        sim_wf(spec_advance(s, input, x)),
{
    broadcast use vstd::seq_lib::group_filter_ensures;
    broadcast use vstd::prelude::Seq::lemma_filter_contains_rev;

    lemma_mid_asteroids_wf(s, x);
    lemma_mid_projectiles_wf(s);
    let mid_a = mid_asteroids(s, x);
    let mid_p = mid_projectiles(s);
    let marked_a = marked(mid_a, mid_p);
    let marked_p = marked(mid_p, mid_a);
    assert forall|i: int| 0 <= i < marked_a.len() implies asteroid_wf(#[trigger] marked_a[i]) by {
        assert(asteroid_wf(mid_a[i]));
    }
    assert forall|i: int| 0 <= i < marked_p.len() implies projectile_wf(#[trigger] marked_p[i]) by {
        assert(projectile_wf(mid_p[i]));
    }
    let res = spec_advance(s, input, x);
    assert forall|i: int| 0 <= i < res.asteroids.len() implies asteroid_wf(
        #[trigger] res.asteroids[i],
    ) by {
        let e = res.asteroids[i];
        assert(res.asteroids.contains(e));
        assert(marked_a.contains(e));
        let k = choose|k: int| 0 <= k < marked_a.len() && marked_a[k] == e;
        assert(asteroid_wf(marked_a[k]));
    }
    assert forall|i: int| 0 <= i < res.projectiles.len() implies projectile_wf(
        #[trigger] res.projectiles[i],
    ) by {
        let e = res.projectiles[i];
        assert(res.projectiles.contains(e));
        assert(marked_p.contains(e));
        let k = choose|k: int| 0 <= k < marked_p.len() && marked_p[k] == e;
        assert(projectile_wf(marked_p[k]));
    }
}

/// On a frame that spawns nothing, the frame update does not depend on the
/// horizontal position the spawner would have used.
pub proof fn lemma_advance_no_spawn(s: SimM, input: Input, x: int)
    requires
        !spawn_frame(s.frames),
    ensures
        spec_advance(s, input, x) == spec_advance(s, input, 0),
        spec_player_hit(s, input, x) == spec_player_hit(s, input, 0),
{
    assert(with_spawn(moved_all(s.asteroids), s.frames, x) == with_spawn(
        moved_all(s.asteroids),
        s.frames,
        0,
    ));
    assert(spec_advance(s, input, x) =~= spec_advance(s, input, 0));
}

/// The player's rectangle after one frame of input, with the wall rule of
/// each direction checked exactly as stated by the four step functions.
fn step_player_exec(p: Rect, input: Input) -> (r: Rect)
    requires
        rect_wf(p@),
    ensures
        r@ == step_player(p@, input),
        rect_wf(r@),
{
    let mut q = p;
    if input.up {
        if !(q.y < TOP_LIMIT && q.top() < TOP_LIMIT) {
            q.y = q.y - PLAYER_VELOCITY;
        }
    }
    assert(q@ == step_up(p@, input.up));
    assert(rect_wf(q@));
    let ghost q1 = q@;
    if input.down {
        if !(q.y > 0 && q.bottom() > SCREEN_HEIGHT) {
            q.y = q.y + PLAYER_VELOCITY;
        }
    }
    assert(q@ == step_down(q1, input.down));
    assert(rect_wf(q@));
    let ghost q2 = q@;
    if input.left {
        if !(q.x < 0 && q.left() < 0) {
            q.x = q.x - PLAYER_VELOCITY;
        }
    }
    assert(q@ == step_left(q2, input.left));
    assert(rect_wf(q@));
    let ghost q3 = q@;
    if input.right {
        if !(q.x > 0 && q.right() > SCREEN_WIDTH) {
            q.x = q.x + PLAYER_VELOCITY;
        }
    }
    assert(q@ == step_right(q3, input.right));
    assert(rect_wf(q@));
    q
}

/// Every asteroid translated by its velocity.
fn move_asteroids(v: &Vec<Asteroid>) -> (r: Vec<Asteroid>)
    requires
        asteroids_wf(asts_view(v@)),
    ensures
        asts_view(r@) == moved_all(asts_view(v@)),
{
    let mut r: Vec<Asteroid> = Vec::new();
    let mut i: usize = 0;
    while i < v.len()
        invariant
            i <= v.len(),
            asteroids_wf(asts_view(v@)),
            r@.len() == i,
            forall|k: int|
                0 <= k < i ==> asts_view(r@)[k] == moved_entity(#[trigger] asts_view(v@)[k]),
        decreases v.len() - i,
    {
        let mut a = v[i];
        assert(asteroid_wf(asts_view(v@)[i as int]));
        a.rect.x = a.rect.x + a.vel.x;
        a.rect.y = a.rect.y + a.vel.y;
        r.push(a);
        i += 1;
    }
    proof {
        assert(asts_view(r@) =~= moved_all(asts_view(v@)));
    }
    r
}

/// Every projectile translated by its velocity.
fn move_projectiles(v: &Vec<Projectile>) -> (r: Vec<Projectile>)
    requires
        projectiles_wf(projs_view(v@)),
    ensures
        projs_view(r@) == moved_all(projs_view(v@)),
{
    let mut r: Vec<Projectile> = Vec::new();
    let mut i: usize = 0;
    while i < v.len()
        invariant
            i <= v.len(),
            projectiles_wf(projs_view(v@)),
            r@.len() == i,
            forall|k: int|
                0 <= k < i ==> projs_view(r@)[k] == moved_entity(#[trigger] projs_view(v@)[k]),
        decreases v.len() - i,
    {
        let mut p = v[i];
        assert(projectile_wf(projs_view(v@)[i as int]));
        p.rect.x = p.rect.x + p.vel.x;
        p.rect.y = p.rect.y + p.vel.y;
        r.push(p);
        i += 1;
    }
    proof {
        assert(projs_view(r@) =~= moved_all(projs_view(v@)));
    }
    r
}

/// The asteroids that are still inside the arena's height band.
fn prune_asteroids(v: &Vec<Asteroid>) -> (r: Vec<Asteroid>)
    ensures
        asts_view(r@) == pruned(asts_view(v@)),
{
    let mut r: Vec<Asteroid> = Vec::new();
    let mut i: usize = 0;
    proof {
        assert(asts_view(v@).take(0) =~= Seq::<EntityM>::empty());
        assert(pruned(Seq::<EntityM>::empty()) =~= Seq::<EntityM>::empty()) by {
            reveal(Seq::filter);
        }
        assert(asts_view(r@) =~= pruned(asts_view(v@).take(0)));
    }
    while i < v.len()
        invariant
            i <= v.len(),
            asts_view(r@) == pruned(asts_view(v@).take(i as int)),
        decreases v.len() - i,
    {
        let a = v[i];
        proof {
            assert(asts_view(v@).take(i as int + 1) =~= asts_view(v@).take(i as int).push(
                asts_view(v@)[i as int],
            ));
            lemma_pruned_push(asts_view(v@).take(i as int), asts_view(v@)[i as int]);
        }
        if a.rect.y > 0 && a.rect.y < SCREEN_HEIGHT {
            r.push(a);
            proof {
                assert(asts_view(r@) =~= pruned(asts_view(v@).take(i as int)).push(
                    asts_view(v@)[i as int],
                ));
            }
        }
        i += 1;
    }
    proof {
        assert(asts_view(v@).take(v@.len() as int) =~= asts_view(v@));
    }
    r
}

/// The projectiles that are still inside the arena's height band.
fn prune_projectiles(v: &Vec<Projectile>) -> (r: Vec<Projectile>)
    ensures
        projs_view(r@) == pruned(projs_view(v@)),
{
    let mut r: Vec<Projectile> = Vec::new();
    let mut i: usize = 0;
    proof {
        assert(projs_view(v@).take(0) =~= Seq::<EntityM>::empty());
        assert(pruned(Seq::<EntityM>::empty()) =~= Seq::<EntityM>::empty()) by {
            reveal(Seq::filter);
        }
        assert(projs_view(r@) =~= pruned(projs_view(v@).take(0)));
    }
    while i < v.len()
        invariant
            i <= v.len(),
            projs_view(r@) == pruned(projs_view(v@).take(i as int)),
        decreases v.len() - i,
    {
        let p = v[i];
        proof {
            assert(projs_view(v@).take(i as int + 1) =~= projs_view(v@).take(i as int).push(
                projs_view(v@)[i as int],
            ));
            lemma_pruned_push(projs_view(v@).take(i as int), projs_view(v@)[i as int]);
        }
        if p.rect.y > 0 && p.rect.y < SCREEN_HEIGHT {
            r.push(p);
            proof {
                assert(projs_view(r@) =~= pruned(projs_view(v@).take(i as int)).push(
                    projs_view(v@)[i as int],
                ));
            }
        }
        i += 1;
    }
    proof {
        assert(projs_view(v@).take(v@.len() as int) =~= projs_view(v@));
    }
    r
}

/// Whether the rectangle overlaps some asteroid of the collection.
fn any_asteroid_overlaps(r: &Rect, asts: &Vec<Asteroid>) -> (b: bool)
    requires
        rect_wf(r@),
        asteroids_wf(asts_view(asts@)),
    ensures
        b == hit_by_any(r@, asts_view(asts@)),
{
    let mut i: usize = 0;
    while i < asts.len()
        invariant
            i <= asts.len(),
            rect_wf(r@),
            asteroids_wf(asts_view(asts@)),
            forall|j: int| #![auto] 0 <= j < i ==> !rects_overlap(asts_view(asts@)[j].rect, r@),
        decreases asts.len() - i,
    {
        assert(asteroid_wf(asts_view(asts@)[i as int]));
        if asts[i].rect.overlaps(r) {
            assert(rects_overlap(asts_view(asts@)[i as int].rect, r@));
            return true;
        }
        i += 1;
    }
    false
}

/// Whether the rectangle overlaps some projectile of the collection.
fn any_projectile_overlaps(r: &Rect, projs: &Vec<Projectile>) -> (b: bool)
    requires
        rect_wf(r@),
        projectiles_wf(projs_view(projs@)),
    ensures
        b == hit_by_any(r@, projs_view(projs@)),
{
    let mut i: usize = 0;
    while i < projs.len()
        invariant
            i <= projs.len(),
            rect_wf(r@),
            projectiles_wf(projs_view(projs@)),
            forall|j: int| #![auto] 0 <= j < i ==> !rects_overlap(projs_view(projs@)[j].rect, r@),
        decreases projs.len() - i,
    {
        assert(projectile_wf(projs_view(projs@)[i as int]));
        if projs[i].rect.overlaps(r) {
            assert(rects_overlap(projs_view(projs@)[i as int].rect, r@));
            return true;
        }
        i += 1;
    }
    false
}

/// Every asteroid, marked collided when it overlaps some projectile.
fn mark_asteroids_exec(asts: &Vec<Asteroid>, projs: &Vec<Projectile>) -> (r: Vec<Asteroid>)
    requires
        asteroids_wf(asts_view(asts@)),
        projectiles_wf(projs_view(projs@)),
    ensures
        asts_view(r@) == marked(asts_view(asts@), projs_view(projs@)),
{
    let mut r: Vec<Asteroid> = Vec::new();
    let mut i: usize = 0;
    while i < asts.len()
        invariant
            i <= asts.len(),
            asteroids_wf(asts_view(asts@)),
            projectiles_wf(projs_view(projs@)),
            r@.len() == i,
            forall|k: int|
                0 <= k < i ==> asts_view(r@)[k] == marked(asts_view(asts@), projs_view(projs@))[k],
        decreases asts.len() - i,
    {
        let mut a = asts[i];
        let ghost ea = asts_view(asts@)[i as int];
        assert(asteroid_wf(ea));
        assert(a@ == ea);
        let hit = any_projectile_overlaps(&a.rect, projs);
        if hit {
            a.has_collided = true;
        }
        assert(a@ == (EntityM {
            collided: ea.collided || hit_by_any(ea.rect, projs_view(projs@)),
            ..ea
        }));
        let ghost r0 = r@;
        r.push(a);
        proof {
            let m = marked(asts_view(asts@), projs_view(projs@));
            assert forall|k: int| 0 <= k < i + 1 implies asts_view(r@)[k] == m[k] by {
                if k < i as int {
                    assert(asts_view(r0)[k] == m[k]);
                    assert(r@[k] == r0[k]);
                } else {
                    assert(r@[k] == a);
                }
            }
        }
        i += 1;
    }
    proof {
        assert(asts_view(r@) =~= marked(asts_view(asts@), projs_view(projs@)));
    }
    r
}

/// Every projectile, marked collided when it overlaps some asteroid.
fn mark_projectiles_exec(projs: &Vec<Projectile>, asts: &Vec<Asteroid>) -> (r: Vec<Projectile>)
    requires
        projectiles_wf(projs_view(projs@)),
        asteroids_wf(asts_view(asts@)),
    ensures
        projs_view(r@) == marked(projs_view(projs@), asts_view(asts@)),
{
    let mut r: Vec<Projectile> = Vec::new();
    let mut i: usize = 0;
    while i < projs.len()
        invariant
            i <= projs.len(),
            projectiles_wf(projs_view(projs@)),
            asteroids_wf(asts_view(asts@)),
            r@.len() == i,
            forall|k: int|
                0 <= k < i ==> projs_view(r@)[k] == marked(projs_view(projs@), asts_view(asts@))[k],
        decreases projs.len() - i,
    {
        let mut p = projs[i];
        let ghost ep = projs_view(projs@)[i as int];
        assert(projectile_wf(ep));
        assert(p@ == ep);
        let hit = any_asteroid_overlaps(&p.rect, asts);
        if hit {
            p.has_collided = true;
        }
        assert(p@ == (EntityM {
            collided: ep.collided || hit_by_any(ep.rect, asts_view(asts@)),
            ..ep
        }));
        let ghost r0 = r@;
        r.push(p);
        proof {
            let m = marked(projs_view(projs@), asts_view(asts@));
            assert forall|k: int| 0 <= k < i + 1 implies projs_view(r@)[k] == m[k] by {
                if k < i as int {
                    assert(projs_view(r0)[k] == m[k]);
                    assert(r@[k] == r0[k]);
                } else {
                    assert(r@[k] == p);
                }
            }
        }
        i += 1;
    }
    proof {
        assert(projs_view(r@) =~= marked(projs_view(projs@), asts_view(asts@)));
    }
    r
}

/// The asteroids that were not marked collided.
fn sweep_asteroids(v: &Vec<Asteroid>) -> (r: Vec<Asteroid>)
    ensures
        asts_view(r@) == swept(asts_view(v@)),
{
    let mut r: Vec<Asteroid> = Vec::new();
    let mut i: usize = 0;
    proof {
        assert(asts_view(v@).take(0) =~= Seq::<EntityM>::empty());
        assert(swept(Seq::<EntityM>::empty()) =~= Seq::<EntityM>::empty()) by {
            reveal(Seq::filter);
        }
        assert(asts_view(r@) =~= swept(asts_view(v@).take(0)));
    }
    while i < v.len()
        invariant
            i <= v.len(),
            asts_view(r@) == swept(asts_view(v@).take(i as int)),
        decreases v.len() - i,
    {
        let a = v[i];
        proof {
            assert(asts_view(v@).take(i as int + 1) =~= asts_view(v@).take(i as int).push(
                asts_view(v@)[i as int],
            ));
            lemma_swept_push(asts_view(v@).take(i as int), asts_view(v@)[i as int]);
        }
        if a.has_collided == false {
            r.push(a);
            proof {
                assert(asts_view(r@) =~= swept(asts_view(v@).take(i as int)).push(
                    asts_view(v@)[i as int],
                ));
            }
        }
        i += 1;
    }
    proof {
        assert(asts_view(v@).take(v@.len() as int) =~= asts_view(v@));
    }
    r
}

/// The projectiles that were not marked collided.
fn sweep_projectiles(v: &Vec<Projectile>) -> (r: Vec<Projectile>)
    ensures
        projs_view(r@) == swept(projs_view(v@)),
{
    let mut r: Vec<Projectile> = Vec::new();
    let mut i: usize = 0;
    proof {
        assert(projs_view(v@).take(0) =~= Seq::<EntityM>::empty());
        assert(swept(Seq::<EntityM>::empty()) =~= Seq::<EntityM>::empty()) by {
            reveal(Seq::filter);
        }
        assert(projs_view(r@) =~= swept(projs_view(v@).take(0)));
    }
    while i < v.len()
        invariant
            i <= v.len(),
            projs_view(r@) == swept(projs_view(v@).take(i as int)),
        decreases v.len() - i,
    {
        let p = v[i];
        proof {
            assert(projs_view(v@).take(i as int + 1) =~= projs_view(v@).take(i as int).push(
                projs_view(v@)[i as int],
            ));
            lemma_swept_push(projs_view(v@).take(i as int), projs_view(v@)[i as int]);
        }
        if p.has_collided == false {
            r.push(p);
            proof {
                assert(projs_view(r@) =~= swept(projs_view(v@).take(i as int)).push(
                    projs_view(v@)[i as int],
                ));
            }
        }
        i += 1;
    }
    proof {
        assert(projs_view(v@).take(v@.len() as int) =~= projs_view(v@));
    }
    r
}

impl Simulation {
    /// The start state: the player centered near the bottom of the arena,
    /// two freshly spawned asteroids, no projectiles, the counter at zero.
    pub fn new() -> (s: Simulation)
        ensures
            s@.player == (RectM { x: 300, y: 540, w: PLAYER_WIDTH as int, h: PLAYER_HEIGHT as int }),
            s@.asteroids.len() == 2,
            fresh_asteroid(s@.asteroids[0]),
            fresh_asteroid(s@.asteroids[1]),
            s@.projectiles.len() == 0,
            s@.frames == 0,
            sim_wf(s@),
    {
        let player = Rect::new(SCREEN_WIDTH / 2, SCREEN_HEIGHT / 10 * 9, PLAYER_WIDTH, PLAYER_HEIGHT);
        let mut asteroids: Vec<Asteroid> = Vec::new();
        asteroids.push(Asteroid::new());
        asteroids.push(Asteroid::new());
        let projectiles: Vec<Projectile> = Vec::new();
        Simulation { player, asteroids, projectiles, frames: 0 }
    }

    /// Fire: append one projectile at the player's current position. There
    /// is no cooldown; every call appends one projectile.
    pub fn spawn_projectile(&mut self)
        ensures
            final(self)@ == (SimM {
                projectiles: old(self)@.projectiles.push(projectile_model(old(self)@.player)),
                ..old(self)@
            }),
            sim_wf(old(self)@) ==> sim_wf(final(self)@),
    {
        let p = Projectile::new(self.player);
        self.projectiles.push(p);
        proof {
            assert(final(self)@.projectiles =~= old(self)@.projectiles.push(
                projectile_model(old(self)@.player),
            ));
            assert(final(self)@ =~= (SimM {
                projectiles: old(self)@.projectiles.push(projectile_model(old(self)@.player)),
                ..old(self)@
            }));
        }
    }

    /// Drop the first asteroid of the collection.
    pub fn remove_asteroid(&mut self)
        requires
            old(self)@.asteroids.len() > 0,
        ensures
            final(self)@ == (SimM { asteroids: old(self)@.asteroids.remove(0), ..old(self)@ }),
            sim_wf(old(self)@) ==> sim_wf(final(self)@),
    {
        self.asteroids.remove(0);
        proof {
            assert(final(self)@.asteroids =~= old(self)@.asteroids.remove(0));
            assert(final(self)@ =~= (SimM {
                asteroids: old(self)@.asteroids.remove(0),
                ..old(self)@
            }));
        }
    }

    /// One frame of the update cycle, with the horizontal position the
    /// spawner would use handed in: the new state is exactly
    /// `spec_advance` of the old one, and the returned flag reports
    /// whether some live asteroid overlaps the player this frame.
    pub fn advance_frame_with_spawn_x(&mut self, input: Input, spawn_x: i32) -> (hit: bool)
        requires
            sim_wf(old(self)@),
            0 <= spawn_x < SCREEN_WIDTH,
        ensures
            final(self)@ == spec_advance(old(self)@, input, spawn_x as int),
            hit == spec_player_hit(old(self)@, input, spawn_x as int),
            sim_wf(final(self)@),
    {
        let ghost s0 = self@;
        let ghost x = spawn_x as int;
        self.player = step_player_exec(self.player, input);
        let mut moved = move_asteroids(&self.asteroids);
        if self.frames == SPAWN_FRAME_A || self.frames == SPAWN_FRAME_B {
            let ghost before = asts_view(moved@);
            moved.push(Asteroid::new_at(spawn_x));
            proof {
                assert(spawn_frame(s0.frames));
                assert(asts_view(moved@) =~= before.push(asteroid_model(x)));
            }
        } else {
            proof {
                assert(!spawn_frame(s0.frames));
            }
        }
        assert(asts_view(moved@) == with_spawn(moved_all(s0.asteroids), s0.frames, x));
        let pruned_asts = prune_asteroids(&moved);
        proof {
            lemma_mid_asteroids_wf(s0, x);
            assert(asts_view(pruned_asts@) == mid_asteroids(s0, x));
        }
        let moved_projs = move_projectiles(&self.projectiles);
        let pruned_projs = prune_projectiles(&moved_projs);
        proof {
            lemma_mid_projectiles_wf(s0);
            assert(projs_view(pruned_projs@) == mid_projectiles(s0));
        }
        let hit = any_asteroid_overlaps(&self.player, &pruned_asts);
        let marked_asts = mark_asteroids_exec(&pruned_asts, &pruned_projs);
        let marked_projs = mark_projectiles_exec(&pruned_projs, &pruned_asts);
        let new_asts = sweep_asteroids(&marked_asts);
        let new_projs = sweep_projectiles(&marked_projs);
        self.asteroids = new_asts;
        self.projectiles = new_projs;
        if self.frames < FRAME_WRAP {
            self.frames = self.frames + 1;
        } else {
            self.frames = 0;
        }
        proof {
            lemma_advance_wf(s0, input, x);
            assert(self@ =~= spec_advance(s0, input, x));
        }
        hit
    }

    /// One frame of the update cycle with a randomly drawn spawn position:
    /// exactly `spec_advance` for some horizontal position inside the
    /// arena, which only a trigger frame looks at.
    pub fn advance_frame(&mut self, input: Input) -> (hit: bool)
        requires
            sim_wf(old(self)@),
        ensures
            exists|x: int|
                #![trigger spec_advance(old(self)@, input, x)]
                0 <= x < SCREEN_WIDTH && final(self)@ == spec_advance(old(self)@, input, x) && hit
                    == spec_player_hit(old(self)@, input, x),
            !spawn_frame(old(self)@.frames) ==> final(self)@ == spec_advance(old(self)@, input, 0)
                && hit == spec_player_hit(old(self)@, input, 0),
            sim_wf(final(self)@),
    {
        let x = random_in_range(0, SCREEN_WIDTH);
        let hit = self.advance_frame_with_spawn_x(input, x);
        proof {
            let xi = x as int;
            assert(0 <= xi < SCREEN_WIDTH && self@ == spec_advance(old(self)@, input, xi) && hit
                == spec_player_hit(old(self)@, input, xi));
            if !spawn_frame(old(self)@.frames) {
                lemma_advance_no_spawn(old(self)@, input, xi);
            }
        }
        hit
    }

    /// The list of drawables of the current frame: a pure read of the
    /// state, so two calls without a frame in between yield the same list.
    pub fn render_snapshot(&self) -> (r: Vec<(Rect, Color)>)
        ensures
            drawables_view(r@) == snapshot_spec(self@),
    {
        let mut r: Vec<(Rect, Color)> = Vec::new();
        r.push((self.player, Color::White));
        let mut i: usize = 0;
        while i < self.asteroids.len()
            invariant
                i <= self.asteroids.len(),
                r@.len() == 1 + i,
                drawables_view(r@)[0] == (self@.player, Color::White),
                forall|k: int|
                    0 <= k < i ==> drawables_view(r@)[1 + k] == (
                        self@.asteroids[k].rect,
                        Color::White,
                    ),
            decreases self.asteroids.len() - i,
        {
            r.push((self.asteroids[i].rect, Color::White));
            i += 1;
        }
        let offset = r.len();
        let mut j: usize = 0;
        while j < self.projectiles.len()
            invariant
                j <= self.projectiles.len(),
                offset == 1 + self@.asteroids.len(),
                r@.len() == offset + j,
                drawables_view(r@)[0] == (self@.player, Color::White),
                forall|k: int|
                    0 <= k < self@.asteroids.len() ==> drawables_view(r@)[1 + k] == (
                        self@.asteroids[k].rect,
                        Color::White,
                    ),
                forall|k: int|
                    0 <= k < j ==> drawables_view(r@)[offset + k] == (
                        self@.projectiles[k].rect,
                        Color::Red,
                    ),
            decreases self.projectiles.len() - j,
        {
            r.push((self.projectiles[j].rect, Color::Red));
            j += 1;
        }
        proof {
            assert(drawables_view(r@) =~= snapshot_spec(self@));
        }
        r
    }
}

} // verus!

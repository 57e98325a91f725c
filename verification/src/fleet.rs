//! The per-frame passes over the enemies, the bullets and the effects:
//! motion, pruning and collision resolution.

use vstd::prelude::*;
use crate::effect::Effect;
use crate::score::Scoreboard;
use crate::shape::Shape;

verus! {

/// Falling for `dt_micros`, as a map over bodies.
pub open spec fn descent(dt_micros: u32) -> spec_fn(Shape) -> Shape {
    |s: Shape| s.spec_descended(dt_micros)
}

/// Rising for `dt_micros`, as a map over bodies.
pub open spec fn ascent(dt_micros: u32) -> spec_fn(Shape) -> Shape {
    |s: Shape| s.spec_ascended(dt_micros)
}

/// The enemies that pruning keeps on a screen `screen_height` high.
pub open spec fn enemy_keeper(screen_height: u32) -> spec_fn(Shape) -> bool {
    |s: Shape| s.spec_enemy_stays(screen_height)
}

/// The bullets that pruning keeps.
pub open spec fn bullet_keeper() -> spec_fn(Shape) -> bool {
    |s: Shape| s.spec_bullet_stays()
}

/// The effects that pruning keeps.
pub open spec fn effect_keeper() -> spec_fn(Effect) -> bool {
    |e: Effect| e.emitting
}

/// The bodies that collide with `target`.
pub open spec fn striker(target: Shape) -> spec_fn(Shape) -> bool {
    |s: Shape| s.spec_collides_with(target)
}

/// `body` collides with at least one of `others`.
pub open spec fn spec_touches_any(body: Shape, others: Seq<Shape>) -> bool {
    exists|j: int| 0 <= j < others.len() && body.spec_collides_with(#[trigger] others[j])
}

/// `body`, marked where `hit` holds.
pub open spec fn spec_marked_if(body: Shape, hit: bool) -> Shape {
    if hit {
        body.spec_marked()
    } else {
        body
    }
}

/// Each of `bodies`, marked where it collides with one of `others`.
pub open spec fn spec_marked_against(bodies: Seq<Shape>, others: Seq<Shape>) -> Seq<Shape> {
    Seq::new(bodies.len(), |i: int| spec_marked_if(bodies[i], spec_touches_any(bodies[i], others)))
}

/// Number of `bullets` that collide with `enemy`.
pub open spec fn spec_hits_on(enemy: Shape, bullets: Seq<Shape>) -> nat {
    bullets.filter(striker(enemy)).len()
}

/// `count` copies of `body`.
pub open spec fn spec_copies(body: Shape, count: nat) -> Seq<Shape> {
    Seq::new(count, |k: int| body)
}

/// One entry per colliding pair of an enemy and a bullet: the enemy of the
/// pair. The enemies come in their own order, each as often as bullets
/// collide with it.
pub open spec fn spec_struck(enemies: Seq<Shape>, bullets: Seq<Shape>) -> Seq<Shape>
    decreases enemies.len(),
{
    if enemies.len() == 0 {
        Seq::empty()
    } else {
        spec_struck(enemies.drop_last(), bullets) + spec_copies(
            enemies.last(),
            spec_hits_on(enemies.last(), bullets),
        )
    }
}

/// The score of each body.
pub open spec fn awarding() -> spec_fn(Shape) -> u32 {
    |s: Shape| s.spec_points() as u32
}

/// The explosion of each body.
pub open spec fn blasting() -> spec_fn(Shape) -> Effect {
    |s: Shape| Effect::spec_blast(s)
}

/// Adding one body to `others` adds exactly the collisions with that body.
pub proof fn lemma_touches_any_push(body: Shape, others: Seq<Shape>, x: Shape)
    ensures
        spec_touches_any(body, others.push(x)) == (spec_touches_any(body, others)
            || body.spec_collides_with(x)),
{
    let more = others.push(x);
    if spec_touches_any(body, others) {
        let j = choose|j: int| 0 <= j < others.len() && body.spec_collides_with(#[trigger] others[j]);
        assert(more[j] == others[j]);
    }
    if body.spec_collides_with(x) {
        assert(more[others.len() as int] == x);
    }
    if spec_touches_any(body, more) {
        let j = choose|j: int| 0 <= j < more.len() && body.spec_collides_with(#[trigger] more[j]);
        if j < others.len() {
            assert(more[j] == others[j]);
        }
    }
}

/// Lets every enemy fall for `dt_micros`.
pub fn advance_enemies(enemies: &mut Vec<Shape>, dt_micros: u32)
    ensures
        final(enemies)@ == old(enemies)@.map_values(descent(dt_micros)),
{
    let mut i: usize = 0;
    while i < enemies.len()
        invariant
            0 <= i <= enemies.len(),
            enemies.len() == old(enemies).len(),
            forall|k: int| 0 <= k < i ==> enemies@[k] == old(enemies)@[k].spec_descended(dt_micros),
            forall|k: int| i <= k < enemies.len() ==> enemies@[k] == old(enemies)@[k],
        decreases enemies.len() - i,
    {
        let moved = enemies[i].descended(dt_micros);
        enemies.set(i, moved);
        i += 1;
    }
}

/// Lets every bullet rise for `dt_micros`.
pub fn advance_bullets(bullets: &mut Vec<Shape>, dt_micros: u32)
    ensures
        final(bullets)@ == old(bullets)@.map_values(ascent(dt_micros)),
{
    let mut i: usize = 0;
    while i < bullets.len()
        invariant
            0 <= i <= bullets.len(),
            bullets.len() == old(bullets).len(),
            forall|k: int| 0 <= k < i ==> bullets@[k] == old(bullets)@[k].spec_ascended(dt_micros),
            forall|k: int| i <= k < bullets.len() ==> bullets@[k] == old(bullets)@[k],
        decreases bullets.len() - i,
    {
        let moved = bullets[i].ascended(dt_micros);
        bullets.set(i, moved);
        i += 1;
    }
}

/// Removes the enemies that carry a mark or have left the band, and keeps
/// the others in their order.
pub fn prune_enemies(enemies: &mut Vec<Shape>, screen_height: u32)
    ensures
        final(enemies)@ == old(enemies)@.filter(enemy_keeper(screen_height)),
        forall|i: int|
            0 <= i < final(enemies)@.len() ==> (#[trigger] final(enemies)@[i]).spec_enemy_stays(
                screen_height,
            ),
{
    let mut kept: Vec<Shape> = Vec::new();
    let mut i: usize = 0;
    assert(enemies@.take(0).filter(enemy_keeper(screen_height)) =~= Seq::<Shape>::empty()) by {
        reveal(Seq::filter);
    }
    while i < enemies.len()
        invariant
            0 <= i <= enemies.len(),
            enemies@ == old(enemies)@,
            kept@ == enemies@.take(i as int).filter(enemy_keeper(screen_height)),
        decreases enemies.len() - i,
    {
        let body = enemies[i];
        proof {
            assert(enemies@.take(i + 1) =~= enemies@.take(i as int).push(body));
            enemies@.take(i as int).lemma_filter_push(body, enemy_keeper(screen_height));
        }
        if body.enemy_stays(screen_height) {
            kept.push(body);
        }
        i += 1;
    }
    assert(enemies@.take(i as int) =~= enemies@);
    proof {
        assert forall|k: int| 0 <= k < kept@.len() implies (#[trigger] kept@[k]).spec_enemy_stays(
            screen_height,
        ) by {
            old(enemies)@.lemma_filter_pred(enemy_keeper(screen_height), k);
        }
    }
    *enemies = kept;
}

/// Removes the bullets that carry a mark or have left the band, and keeps
/// the others in their order.
pub fn prune_bullets(bullets: &mut Vec<Shape>)
    ensures
        final(bullets)@ == old(bullets)@.filter(bullet_keeper()),
        forall|i: int|
            0 <= i < final(bullets)@.len() ==> (#[trigger] final(bullets)@[i]).spec_bullet_stays(),
{
    let mut kept: Vec<Shape> = Vec::new();
    let mut i: usize = 0;
    assert(bullets@.take(0).filter(bullet_keeper()) =~= Seq::<Shape>::empty()) by {
        reveal(Seq::filter);
    }
    while i < bullets.len()
        invariant
            0 <= i <= bullets.len(),
            bullets@ == old(bullets)@,
            kept@ == bullets@.take(i as int).filter(bullet_keeper()),
        decreases bullets.len() - i,
    {
        let body = bullets[i];
        proof {
            assert(bullets@.take(i + 1) =~= bullets@.take(i as int).push(body));
            bullets@.take(i as int).lemma_filter_push(body, bullet_keeper());
        }
        if body.bullet_stays() {
            kept.push(body);
        }
        i += 1;
    }
    assert(bullets@.take(i as int) =~= bullets@);
    proof {
        assert forall|k: int| 0 <= k < kept@.len() implies (#[trigger] kept@[k]).spec_bullet_stays() by {
            old(bullets)@.lemma_filter_pred(bullet_keeper(), k);
        }
    }
    *bullets = kept;
}

/// Removes the effects that have played out, and keeps the others in their
/// order.
pub fn prune_effects(effects: &mut Vec<Effect>)
    ensures
        final(effects)@ == old(effects)@.filter(effect_keeper()),
        forall|i: int| 0 <= i < final(effects)@.len() ==> (#[trigger] final(effects)@[i]).emitting,
{
    let mut kept: Vec<Effect> = Vec::new();
    let mut i: usize = 0;
    assert(effects@.take(0).filter(effect_keeper()) =~= Seq::<Effect>::empty()) by {
        reveal(Seq::filter);
    }
    while i < effects.len()
        invariant
            0 <= i <= effects.len(),
            effects@ == old(effects)@,
            kept@ == effects@.take(i as int).filter(effect_keeper()),
        decreases effects.len() - i,
    {
        let effect = effects[i];
        proof {
            assert(effects@.take(i + 1) =~= effects@.take(i as int).push(effect));
            effects@.take(i as int).lemma_filter_push(effect, effect_keeper());
        }
        if effect.emitting {
            kept.push(effect);
        }
        i += 1;
    }
    assert(effects@.take(i as int) =~= effects@);
    proof {
        assert forall|k: int| 0 <= k < kept@.len() implies (#[trigger] kept@[k]).emitting by {
            old(effects)@.lemma_filter_pred(effect_keeper(), k);
        }
    }
    *effects = kept;
}

/// Marks every enemy and every bullet that takes part in a collision between
/// the two groups, and lists the enemy of each colliding pair.
pub fn resolve_collisions(enemies: &mut Vec<Shape>, bullets: &mut Vec<Shape>) -> (struck: Vec<
    Shape,
>)
    ensures
        final(enemies)@ == spec_marked_against(old(enemies)@, old(bullets)@),
        final(bullets)@ == spec_marked_against(old(bullets)@, old(enemies)@),
        struck@ == spec_struck(old(enemies)@, old(bullets)@),
{
    let ghost before_e = enemies@;
    let ghost before_b = bullets@;
    let mut struck: Vec<Shape> = Vec::new();
    let mut i: usize = 0;
    proof {
        assert forall|k: int| 0 <= k < before_b.len() implies !spec_touches_any(
            #[trigger] before_b[k],
            before_e.take(0),
        ) by {}
    }
    while i < enemies.len()
        invariant
            0 <= i <= enemies.len(),
            before_e == old(enemies)@,
            before_b == old(bullets)@,
            enemies@.len() == before_e.len(),
            bullets@.len() == before_b.len(),
            forall|k: int|
                0 <= k < i ==> #[trigger] enemies@[k] == spec_marked_if(
                    before_e[k],
                    spec_touches_any(before_e[k], before_b),
                ),
            forall|k: int| i <= k < before_e.len() ==> #[trigger] enemies@[k] == before_e[k],
            forall|k: int|
                0 <= k < before_b.len() ==> #[trigger] bullets@[k] == spec_marked_if(
                    before_b[k],
                    spec_touches_any(before_b[k], before_e.take(i as int)),
                ),
            struck@ == spec_struck(before_e.take(i as int), before_b),
        decreases enemies.len() - i,
    {
        let enemy = enemies[i];
        let mut hit = false;
        let mut j: usize = 0;
        proof {
            assert(before_b.take(0).filter(striker(enemy)) =~= Seq::<Shape>::empty()) by {
                reveal(Seq::filter);
            }
        }
        while j < bullets.len()
            invariant
                0 <= i < enemies.len(),
                0 <= j <= bullets.len(),
                enemy == before_e[i as int],
                enemies@.len() == before_e.len(),
                bullets@.len() == before_b.len(),
                forall|k: int|
                    0 <= k < i ==> #[trigger] enemies@[k] == spec_marked_if(
                        before_e[k],
                        spec_touches_any(before_e[k], before_b),
                    ),
                forall|k: int| i <= k < before_e.len() ==> #[trigger] enemies@[k] == before_e[k],
                forall|k: int|
                    0 <= k < j ==> #[trigger] bullets@[k] == spec_marked_if(
                        before_b[k],
                        spec_touches_any(before_b[k], before_e.take(i + 1)),
                    ),
                forall|k: int|
                    j <= k < before_b.len() ==> #[trigger] bullets@[k] == spec_marked_if(
                        before_b[k],
                        spec_touches_any(before_b[k], before_e.take(i as int)),
                    ),
                hit == spec_touches_any(enemy, before_b.take(j as int)),
                struck@ == spec_struck(before_e.take(i as int), before_b) + spec_copies(
                    enemy,
                    spec_hits_on(enemy, before_b.take(j as int)),
                ),
            decreases bullets.len() - j,
        {
            let bullet = bullets[j];
            let ghost origin = before_b[j as int];
            let ghost seen = before_b.take(j as int);
            let ghost count = spec_hits_on(enemy, seen);
            proof {
                assert(before_e.take(i + 1) =~= before_e.take(i as int).push(enemy));
                assert(before_b.take(j + 1) =~= seen.push(origin));
                lemma_touches_any_push(origin, before_e.take(i as int), enemy);
                lemma_touches_any_push(enemy, seen, origin);
                seen.lemma_filter_push(origin, striker(enemy));
            }
            if bullet.collides_with(&enemy) {
                bullets.set(j, bullet.marked());
                hit = true;
                struck.push(enemy);
                proof {
                    assert(struck@ =~= spec_struck(before_e.take(i as int), before_b)
                        + spec_copies(enemy, count + 1));
                }
            }
            j += 1;
        }
        if hit {
            enemies.set(i, enemy.marked());
        }
        proof {
            assert(before_b.take(j as int) =~= before_b);
            assert(before_e.take(i + 1).drop_last() =~= before_e.take(i as int));
        }
        i += 1;
    }
    proof {
        assert(before_e.take(i as int) =~= before_e);
    }
    struck
}

/// Tells whether `player` collides with any of `enemies`.
pub fn any_collision(player: &Shape, enemies: &Vec<Shape>) -> (hit: bool)
    ensures
        hit == spec_touches_any(*player, enemies@),
{
    let mut i: usize = 0;
    while i < enemies.len()
        invariant
            0 <= i <= enemies.len(),
            !spec_touches_any(*player, enemies@.take(i as int)),
        decreases enemies.len() - i,
    {
        proof {
            lemma_touches_any_push(*player, enemies@.take(i as int), enemies@[i as int]);
        }
        if player.collides_with(&enemies[i]) {
            return true;
        }
        i += 1;
    }
    assert(enemies@.take(i as int) =~= enemies@);
    false
}

/// Records each entry of `struck` on the board and appends its explosion to
/// the effects, in order.
pub fn score_hits(board: &mut Scoreboard, effects: &mut Vec<Effect>, struck: &Vec<Shape>)
    ensures
        *final(board) == old(board).spec_after_hits(struck@.map_values(awarding())),
        final(effects)@ == old(effects)@ + struck@.map_values(blasting()),
        final(board).score >= old(board).score,
        final(board).level >= old(board).level,
        final(board).high_score >= old(board).high_score,
        old(board).wf() ==> final(board).wf(),
{
    let mut k: usize = 0;
    while k < struck.len()
        invariant
            0 <= k <= struck.len(),
            *board == old(board).spec_after_hits(struck@.take(k as int).map_values(awarding())),
            effects@ == old(effects)@ + struck@.take(k as int).map_values(blasting()),
            board.score >= old(board).score,
            board.level >= old(board).level,
            board.high_score >= old(board).high_score,
            old(board).wf() ==> board.wf(),
        decreases struck.len() - k,
    {
        let body = struck[k];
        proof {
            let sooner = struck@.take(k as int);
            let later = struck@.take(k + 1);
            assert(later.map_values(awarding()) =~= sooner.map_values(awarding()).push(
                awarding()(body),
            ));
            assert(later.map_values(awarding()).drop_last() =~= sooner.map_values(awarding()));
            assert(later.map_values(blasting()) =~= sooner.map_values(blasting()).push(
                blasting()(body),
            ));
        }
        board.record_hit(body.points());
        effects.push(Effect::blast(&body));
        k += 1;
    }
    assert(struck@.take(k as int) =~= struck@);
}

/// A collision pass sets the mark of exactly those bodies that collide with a
/// body of the other group: both bodies of a colliding pair end up marked, a
/// body that collides with none keeps the mark it had, and nothing but the
/// mark changes.
pub proof fn lemma_marks_follow_collisions(enemies: Seq<Shape>, bullets: Seq<Shape>, i: int, j: int)
    requires
        0 <= i < enemies.len(),
        0 <= j < bullets.len(),
    ensures
        bullets[j].spec_collides_with(enemies[i]) ==> spec_marked_against(
            enemies,
            bullets,
        )[i].collided && spec_marked_against(bullets, enemies)[j].collided,
        spec_marked_against(enemies, bullets)[i].collided == (enemies[i].collided
            || spec_touches_any(enemies[i], bullets)),
        spec_marked_against(bullets, enemies)[j].collided == (bullets[j].collided
            || spec_touches_any(bullets[j], enemies)),
        spec_marked_against(enemies, bullets)[i] == (Shape {
            collided: spec_marked_against(enemies, bullets)[i].collided,
            ..enemies[i]
        }),
        spec_marked_against(bullets, enemies)[j] == (Shape {
            collided: spec_marked_against(bullets, enemies)[j].collided,
            ..bullets[j]
        }),
{
    if bullets[j].spec_collides_with(enemies[i]) {
        assert(enemies[i].spec_collides_with(bullets[j]));
    }
}

/// Marking changes no position and no side, so a body collides with the
/// marked group exactly when it collides with the group as it was.
pub proof fn lemma_marks_keep_geometry(body: Shape, group: Seq<Shape>, others: Seq<Shape>)
    ensures
        spec_touches_any(body, spec_marked_against(group, others)) == spec_touches_any(body, group),
{
    let marked = spec_marked_against(group, others);
    if spec_touches_any(body, group) {
        let j = choose|j: int| 0 <= j < group.len() && body.spec_collides_with(#[trigger] group[j]);
        assert(body.spec_collides_with(marked[j]));
    }
    if spec_touches_any(body, marked) {
        let j = choose|j: int|
            0 <= j < marked.len() && body.spec_collides_with(#[trigger] marked[j]);
        assert(body.spec_collides_with(group[j]));
    }
}

/// Every entry of the list of struck enemies is one of the enemies and
/// collides with a bullet; where no enemy collides with a bullet the list is
/// empty.
pub proof fn lemma_struck_members(enemies: Seq<Shape>, bullets: Seq<Shape>)
    ensures
        forall|k: int|
            0 <= k < spec_struck(enemies, bullets).len() ==> enemies.contains(
                #[trigger] spec_struck(enemies, bullets)[k],
            ) && spec_touches_any(spec_struck(enemies, bullets)[k], bullets),
        (forall|i: int| 0 <= i < enemies.len() ==> !spec_touches_any(#[trigger] enemies[i], bullets))
            ==> spec_struck(enemies, bullets).len() == 0,
    decreases enemies.len(),
{
    if enemies.len() > 0 {
        let front = enemies.drop_last();
        let last = enemies.last();
        lemma_struck_members(front, bullets);
        lemma_hits_mean_touch(last, bullets);
        let all = spec_struck(enemies, bullets);
        let sooner = spec_struck(front, bullets);
        assert forall|k: int| 0 <= k < all.len() implies enemies.contains(#[trigger] all[k])
            && spec_touches_any(all[k], bullets) by {
            if k < sooner.len() {
                let w = choose|w: int| 0 <= w < front.len() && front[w] == sooner[k];
                assert(enemies[w] == all[k]);
            } else {
                assert(enemies[enemies.len() - 1] == all[k]);
            }
        }
        if forall|i: int| 0 <= i < enemies.len() ==> !spec_touches_any(#[trigger] enemies[i], bullets) {
            assert forall|i: int| 0 <= i < front.len() implies !spec_touches_any(
                #[trigger] front[i],
                bullets,
            ) by {
                assert(front[i] == enemies[i]);
            }
        }
    }
}

/// An enemy is hit at least once exactly when it collides with some bullet.
pub proof fn lemma_hits_mean_touch(enemy: Shape, bullets: Seq<Shape>)
    ensures
        spec_hits_on(enemy, bullets) > 0 <==> spec_touches_any(enemy, bullets),
    decreases bullets.len(),
{
    if bullets.len() == 0 {
        assert(bullets.filter(striker(enemy)) =~= Seq::<Shape>::empty()) by {
            reveal(Seq::filter);
        }
    } else {
        let front = bullets.drop_last();
        let last = bullets.last();
        lemma_hits_mean_touch(enemy, front);
        assert(bullets =~= front.push(last));
        front.lemma_filter_push(last, striker(enemy));
        lemma_touches_any_push(enemy, front, last);
    }
}

} // verus!

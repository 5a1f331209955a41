//! The claims of the wolves on the sheep: a wolf that is after a sheep has
//! that sheep to itself.

use crate::player::Bark;
use crate::safe_area::SafeArea;
use crate::sheep::Sheep;
use crate::steering::{is_place_of, place_of};
use crate::wolf::{
    after_bark, after_barks, after_chase, after_chases, after_meal, after_meals, after_run_out,
    after_run_outs, given_up, is_nearest_prey, nearest_prey, wolf_enters_for,
    wolves_entering, Hunt, HuntState, Wolf,
};
use vstd::prelude::*;

verus! {

/// Whether no two sheep of the flock share an id.
pub open spec fn distinct_ids(sheep: Seq<Sheep>) -> bool {
    forall|i: int, j: int|
        0 <= i < sheep.len() && 0 <= j < sheep.len() && i != j ==> (#[trigger] sheep[i]).id != (
        #[trigger] sheep[j]).id
}

/// Whether the wolf is after the sheep with this id.
pub open spec fn seeks(wolf: Wolf, id: u64) -> bool {
    wolf.state matches HuntState::SeekTarget(chase) && chase.target == id
}

/// Whether the claims are in order: every sheep that a wolf is after is
/// marked as hunted, and no sheep has two wolves after it.
pub open spec fn claims_are_kept(wolves: Seq<Wolf>, sheep: Seq<Sheep>) -> bool {
    &&& forall|w: int, s: int|
        0 <= w < wolves.len() && 0 <= s < sheep.len() && seeks(
            #[trigger] wolves[w],
            (#[trigger] sheep[s]).id,
        ) ==> sheep[s].under_hunting
    &&& forall|a: int, b: int, s: int|
        0 <= a < wolves.len() && 0 <= b < wolves.len() && a != b && 0 <= s < sheep.len() && seeks(
            #[trigger] wolves[a],
            (#[trigger] sheep[s]).id,
        ) ==> !seeks(#[trigger] wolves[b], sheep[s].id)
}

/// In a flock without shared ids, a sheep stands in the place of its id.
pub proof fn lemma_place_of_distinct(sheep: Seq<Sheep>, s: int)
    requires
        distinct_ids(sheep),
        0 <= s < sheep.len(),
    ensures
        place_of(sheep, sheep[s].id) == Some(s),
{
    assert(is_place_of(sheep, sheep[s].id, s));
    let c = choose|c: int| is_place_of(sheep, sheep[s].id, c);
    assert(sheep[c].id == sheep[s].id);
}

/// The claims stay in order when a wolf has its turn at chasing: the sheep
/// it catches is gone, and with it the claim.
pub proof fn lemma_chase_keeps_claims(hunt: Hunt, i: int)
    requires
        0 <= i < hunt.wolves.len(),
        distinct_ids(hunt.sheep),
        claims_are_kept(hunt.wolves, hunt.sheep),
    ensures
        distinct_ids(after_chase(hunt, i).sheep),
        claims_are_kept(after_chase(hunt, i).wolves, after_chase(hunt, i).sheep),
        after_chase(hunt, i).wolves.len() == hunt.wolves.len(),
{
    let after = after_chase(hunt, i);
    assert forall|w: int| 0 <= w < after.wolves.len() implies forall|id: u64|
        seeks(#[trigger] after.wolves[w], id) ==> seeks(hunt.wolves[w], id) by {}
    if after.sheep.len() != hunt.sheep.len() {
        let j = place_of(hunt.sheep, hunt.wolves[i].state->SeekTarget_0.target)->0;
        assert(after.sheep == hunt.sheep.remove(j));
        assert forall|s: int| 0 <= s < after.sheep.len() implies #[trigger] after.sheep[s]
            == hunt.sheep[if s < j {
            s
        } else {
            s + 1
        }] by {}
        assert forall|a: int, b: int|
            0 <= a < after.sheep.len() && 0 <= b < after.sheep.len() && a != b implies (
        #[trigger] after.sheep[a]).id != (#[trigger] after.sheep[b]).id by {
            let x = if a < j { a } else { a + 1 };
            let y = if b < j { b } else { b + 1 };
            assert(hunt.sheep[x].id != hunt.sheep[y].id);
        }
        assert forall|w: int, s: int|
            0 <= w < after.wolves.len() && 0 <= s < after.sheep.len() && seeks(
                #[trigger] after.wolves[w],
                (#[trigger] after.sheep[s]).id,
            ) implies after.sheep[s].under_hunting by {
            let x = if s < j { s } else { s + 1 };
            assert(seeks(hunt.wolves[w], hunt.sheep[x].id));
        }
        assert forall|a: int, b: int, s: int|
            0 <= a < after.wolves.len() && 0 <= b < after.wolves.len() && a != b && 0 <= s
                < after.sheep.len() && seeks(
                #[trigger] after.wolves[a],
                (#[trigger] after.sheep[s]).id,
            ) implies !seeks(#[trigger] after.wolves[b], after.sheep[s].id) by {
            let x = if s < j { s } else { s + 1 };
            assert(seeks(hunt.wolves[a], hunt.sheep[x].id));
            assert(!seeks(hunt.wolves[b], hunt.sheep[x].id));
        }
    } else {
        assert(after.sheep == hunt.sheep);
        assert forall|w: int, s: int|
            0 <= w < after.wolves.len() && 0 <= s < after.sheep.len() && seeks(
                #[trigger] after.wolves[w],
                (#[trigger] after.sheep[s]).id,
            ) implies after.sheep[s].under_hunting by {
            assert(seeks(hunt.wolves[w], hunt.sheep[s].id));
        }
        assert forall|a: int, b: int, s: int|
            0 <= a < after.wolves.len() && 0 <= b < after.wolves.len() && a != b && 0 <= s
                < after.sheep.len() && seeks(
                #[trigger] after.wolves[a],
                (#[trigger] after.sheep[s]).id,
            ) implies !seeks(#[trigger] after.wolves[b], after.sheep[s].id) by {
            assert(seeks(hunt.wolves[a], hunt.sheep[s].id));
            assert(!seeks(hunt.wolves[b], hunt.sheep[s].id));
        }
    }
}

/// The claims stay in order when a wolf gives up its hunt and the claim on
/// its sheep is lifted.
pub proof fn lemma_giving_up_keeps_claims(hunt: Hunt, i: int, retired: Wolf)
    requires
        0 <= i < hunt.wolves.len(),
        distinct_ids(hunt.sheep),
        claims_are_kept(hunt.wolves, hunt.sheep),
        !(retired.state is SeekTarget),
    ensures
        distinct_ids(given_up(hunt.sheep, hunt.wolves[i])),
        claims_are_kept(hunt.wolves.update(i, retired), given_up(hunt.sheep, hunt.wolves[i])),
{
    let wolf = hunt.wolves[i];
    let wolves = hunt.wolves.update(i, retired);
    let sheep = given_up(hunt.sheep, wolf);
    assert(sheep.len() == hunt.sheep.len());
    assert forall|s: int| 0 <= s < sheep.len() implies (#[trigger] sheep[s]).id
        == hunt.sheep[s].id by {}
    assert forall|w: int, s: int|
        0 <= w < wolves.len() && 0 <= s < sheep.len() && seeks(
            #[trigger] wolves[w],
            (#[trigger] sheep[s]).id,
        ) implies sheep[s].under_hunting by {
        assert(w != i);
        assert(seeks(hunt.wolves[w], hunt.sheep[s].id));
        assert(hunt.sheep[s].under_hunting);
        if wolf.state is SeekTarget {
            let target = wolf.state->SeekTarget_0.target;
            lemma_place_of_distinct(hunt.sheep, s);
            if target == hunt.sheep[s].id {
                assert(seeks(hunt.wolves[i], hunt.sheep[s].id));
                assert(!seeks(hunt.wolves[w], hunt.sheep[s].id));
            } else {
                if place_of(hunt.sheep, target) is Some {
                    let j = place_of(hunt.sheep, target)->0;
                    assert(is_place_of(hunt.sheep, target, j));
                    assert(j != s);
                }
            }
        }
    }
    assert forall|a: int, b: int, s: int|
        0 <= a < wolves.len() && 0 <= b < wolves.len() && a != b && 0 <= s < sheep.len() && seeks(
            #[trigger] wolves[a],
            (#[trigger] sheep[s]).id,
        ) implies !seeks(#[trigger] wolves[b], sheep[s].id) by {
        assert(a != i);
        assert(seeks(hunt.wolves[a], hunt.sheep[s].id));
        if b != i {
            assert(!seeks(hunt.wolves[b], hunt.sheep[s].id));
        }
    }
    assert forall|a: int, b: int|
        0 <= a < sheep.len() && 0 <= b < sheep.len() && a != b implies (#[trigger] sheep[a]).id != (
    #[trigger] sheep[b]).id by {
        assert(hunt.sheep[a].id != hunt.sheep[b].id);
    }
}

/// The claims stay in order when a safe area drives a wolf off.
pub proof fn lemma_run_out_keeps_claims(hunt: Hunt, i: int, areas: Seq<SafeArea>)
    requires
        0 <= i < hunt.wolves.len(),
        distinct_ids(hunt.sheep),
        claims_are_kept(hunt.wolves, hunt.sheep),
    ensures
        distinct_ids(after_run_out(hunt, i, areas).sheep),
        claims_are_kept(after_run_out(hunt, i, areas).wolves, after_run_out(hunt, i, areas).sheep),
        after_run_out(hunt, i, areas).wolves.len() == hunt.wolves.len(),
{
    let after = after_run_out(hunt, i, areas);
    if after != hunt {
        lemma_giving_up_keeps_claims(hunt, i, after.wolves[i]);
        assert(after.wolves =~= hunt.wolves.update(i, after.wolves[i]));
    }
}

/// The claims stay in order when a bark drives a wolf off.
pub proof fn lemma_bark_keeps_claims(hunt: Hunt, i: int, bark: Bark)
    requires
        0 <= i < hunt.wolves.len(),
        distinct_ids(hunt.sheep),
        claims_are_kept(hunt.wolves, hunt.sheep),
    ensures
        distinct_ids(after_bark(hunt, i, bark).sheep),
        claims_are_kept(after_bark(hunt, i, bark).wolves, after_bark(hunt, i, bark).sheep),
        after_bark(hunt, i, bark).wolves.len() == hunt.wolves.len(),
{
    let after = after_bark(hunt, i, bark);
    if after != hunt {
        lemma_giving_up_keeps_claims(hunt, i, after.wolves[i]);
        assert(after.wolves =~= hunt.wolves.update(i, after.wolves[i]));
    }
}

/// The claims stay in order when a wolf has eaten: the prey it goes after
/// next was not hunted, and is marked as hunted now.
pub proof fn lemma_meal_keeps_claims(hunt: Hunt, i: int, dt: int)
    requires
        0 <= i < hunt.wolves.len(),
        distinct_ids(hunt.sheep),
        claims_are_kept(hunt.wolves, hunt.sheep),
    ensures
        distinct_ids(after_meal(hunt, i, dt).sheep),
        claims_are_kept(after_meal(hunt, i, dt).wolves, after_meal(hunt, i, dt).sheep),
        after_meal(hunt, i, dt).wolves.len() == hunt.wolves.len(),
{
    let after = after_meal(hunt, i, dt);
    let wolf = hunt.wolves[i];
    assert(after.sheep.len() == hunt.sheep.len());
    assert forall|s: int| 0 <= s < after.sheep.len() implies (#[trigger] after.sheep[s]).id
        == hunt.sheep[s].id && (hunt.sheep[s].under_hunting ==> after.sheep[s].under_hunting) by {}
    assert forall|a: int, b: int|
        0 <= a < after.sheep.len() && 0 <= b < after.sheep.len() && a != b implies (
    #[trigger] after.sheep[a]).id != (#[trigger] after.sheep[b]).id by {
        assert(hunt.sheep[a].id != hunt.sheep[b].id);
    }
    if after.wolves[i].state is SeekTarget && !(wolf.state is SeekTarget) {
        let j = nearest_prey(hunt.sheep, wolf.translation)->0;
        assert(is_nearest_prey(hunt.sheep, wolf.translation, j));
        assert(after.wolves[i].state->SeekTarget_0.target == hunt.sheep[j].id);
        assert(after.sheep[j].under_hunting);
        assert forall|w: int, s: int|
            0 <= w < after.wolves.len() && 0 <= s < after.sheep.len() && seeks(
                #[trigger] after.wolves[w],
                (#[trigger] after.sheep[s]).id,
            ) implies after.sheep[s].under_hunting by {
            if w == i {
                if s != j {
                    assert(hunt.sheep[s].id != hunt.sheep[j].id);
                }
            } else {
                assert(seeks(hunt.wolves[w], hunt.sheep[s].id));
            }
        }
        assert forall|a: int, b: int, s: int|
            0 <= a < after.wolves.len() && 0 <= b < after.wolves.len() && a != b && 0 <= s
                < after.sheep.len() && seeks(
                #[trigger] after.wolves[a],
                (#[trigger] after.sheep[s]).id,
            ) implies !seeks(#[trigger] after.wolves[b], after.sheep[s].id) by {
            if a == i {
                if s != j {
                    assert(hunt.sheep[s].id != hunt.sheep[j].id);
                }
                // The prey was not hunted, so no other wolf was after it.
                if seeks(hunt.wolves[b], hunt.sheep[j].id) {
                    assert(hunt.sheep[j].under_hunting);
                }
            } else if b == i {
                assert(seeks(hunt.wolves[a], hunt.sheep[s].id));
                if s != j {
                    assert(hunt.sheep[s].id != hunt.sheep[j].id);
                } else {
                    assert(hunt.sheep[j].under_hunting);
                }
            } else {
                assert(seeks(hunt.wolves[a], hunt.sheep[s].id));
                assert(!seeks(hunt.wolves[b], hunt.sheep[s].id));
            }
        }
    } else {
        assert forall|w: int, s: int|
            0 <= w < after.wolves.len() && 0 <= s < after.sheep.len() && seeks(
                #[trigger] after.wolves[w],
                (#[trigger] after.sheep[s]).id,
            ) implies after.sheep[s].under_hunting by {
            assert(seeks(hunt.wolves[w], hunt.sheep[s].id));
        }
        assert forall|a: int, b: int, s: int|
            0 <= a < after.wolves.len() && 0 <= b < after.wolves.len() && a != b && 0 <= s
                < after.sheep.len() && seeks(
                #[trigger] after.wolves[a],
                (#[trigger] after.sheep[s]).id,
            ) implies !seeks(#[trigger] after.wolves[b], after.sheep[s].id) by {
            assert(seeks(hunt.wolves[a], hunt.sheep[s].id));
            assert(!seeks(hunt.wolves[b], hunt.sheep[s].id));
        }
    }
}

/// The claims stay in order through a whole round of chasing, of eating, of
/// meeting the safe areas, and of hearing a bark: at no time are two wolves
/// after the same sheep.
pub proof fn lemma_rounds_keep_claims(
    hunt: Hunt,
    n: int,
    dt: int,
    areas: Seq<SafeArea>,
    bark: Bark,
)
    requires
        0 <= n <= hunt.wolves.len(),
        distinct_ids(hunt.sheep),
        claims_are_kept(hunt.wolves, hunt.sheep),
    ensures
        claims_are_kept(after_chases(hunt, n).wolves, after_chases(hunt, n).sheep),
        claims_are_kept(after_meals(hunt, n, dt).wolves, after_meals(hunt, n, dt).sheep),
        claims_are_kept(
            after_run_outs(hunt, n, areas).wolves,
            after_run_outs(hunt, n, areas).sheep,
        ),
        claims_are_kept(after_barks(hunt, n, bark).wolves, after_barks(hunt, n, bark).sheep),
        distinct_ids(after_chases(hunt, n).sheep),
        distinct_ids(after_meals(hunt, n, dt).sheep),
        distinct_ids(after_run_outs(hunt, n, areas).sheep),
        distinct_ids(after_barks(hunt, n, bark).sheep),
        after_chases(hunt, n).wolves.len() == hunt.wolves.len(),
        after_meals(hunt, n, dt).wolves.len() == hunt.wolves.len(),
        after_run_outs(hunt, n, areas).wolves.len() == hunt.wolves.len(),
        after_barks(hunt, n, bark).wolves.len() == hunt.wolves.len(),
    decreases n,
{
    if n > 0 {
        lemma_rounds_keep_claims(hunt, n - 1, dt, areas, bark);
        lemma_chase_keeps_claims(after_chases(hunt, n - 1), n - 1);
        lemma_meal_keeps_claims(after_meals(hunt, n - 1, dt), n - 1, dt);
        lemma_run_out_keeps_claims(after_run_outs(hunt, n - 1, areas), n - 1, areas);
        lemma_bark_keeps_claims(after_barks(hunt, n - 1, bark), n - 1, bark);
    }
}

/// The flock after the spawner has dealt with the first `n` sheep: each of
/// them for which a wolf entered is marked as hunted.
pub open spec fn marked_by_spawner(
    sheep: Seq<Sheep>,
    areas: Seq<SafeArea>,
    level_size: int,
    present: int,
    next_id: int,
    n: int,
) -> Seq<Sheep> {
    Seq::new(
        sheep.len(),
        |i: int|
            if i < n {
                Sheep {
                    under_hunting: sheep[i].under_hunting || wolf_enters_for(
                        sheep,
                        areas,
                        level_size,
                        present,
                        next_id,
                        i,
                    ),
                    ..sheep[i]
                }
            } else {
                sheep[i]
            },
    )
}

/// The claims stay in order when wolves enter: a wolf enters only for a
/// sheep that no wolf is after, and that sheep is marked as hunted at once,
/// so that no second wolf enters for it.
pub proof fn lemma_spawner_keeps_claims(
    sheep: Seq<Sheep>,
    wolves: Seq<Wolf>,
    areas: Seq<SafeArea>,
    level_size: int,
    next_id: int,
    n: int,
)
    requires
        0 <= n <= sheep.len(),
        distinct_ids(sheep),
        claims_are_kept(wolves, sheep),
    ensures
        claims_are_kept(
            wolves + wolves_entering(sheep, areas, level_size, wolves.len() as int, next_id, n),
            marked_by_spawner(sheep, areas, level_size, wolves.len() as int, next_id, n),
        ),
        distinct_ids(marked_by_spawner(sheep, areas, level_size, wolves.len() as int, next_id, n)),
    decreases n,
{
    let present = wolves.len() as int;
    let pack = wolves + wolves_entering(sheep, areas, level_size, present, next_id, n);
    let flock = marked_by_spawner(sheep, areas, level_size, present, next_id, n);
    assert forall|a: int, b: int|
        0 <= a < flock.len() && 0 <= b < flock.len() && a != b implies (#[trigger] flock[a]).id != (
    #[trigger] flock[b]).id by {
        assert(sheep[a].id != sheep[b].id);
    }
    if n == 0 {
        assert(pack =~= wolves);
        assert(flock =~= sheep);
    } else {
        lemma_spawner_keeps_claims(sheep, wolves, areas, level_size, next_id, n - 1);
        let entered = wolves_entering(sheep, areas, level_size, present, next_id, n - 1);
        let old_pack = wolves + entered;
        let old_flock = marked_by_spawner(sheep, areas, level_size, present, next_id, n - 1);
        assert(old_flock.len() == sheep.len());
        assert(old_flock[n - 1] == sheep[n - 1]);
        if wolf_enters_for(sheep, areas, level_size, present, next_id, n - 1) {
            assert(!sheep[n - 1].under_hunting);
            let newcomer = pack[pack.len() - 1];
            assert(pack =~= old_pack.push(newcomer));
            assert(seeks(newcomer, sheep[n - 1].id));
            assert forall|w: int, s: int|
                0 <= w < pack.len() && 0 <= s < flock.len() && seeks(
                    #[trigger] pack[w],
                    (#[trigger] flock[s]).id,
                ) implies flock[s].under_hunting by {
                if w < old_pack.len() {
                    assert(seeks(old_pack[w], old_flock[s].id));
                    assert(old_flock[s].under_hunting);
                } else {
                    if s != n - 1 {
                        assert(sheep[s].id != sheep[n - 1].id);
                    }
                }
            }
            assert forall|a: int, b: int, s: int|
                0 <= a < pack.len() && 0 <= b < pack.len() && a != b && 0 <= s < flock.len() && seeks(
                    #[trigger] pack[a],
                    (#[trigger] flock[s]).id,
                ) implies !seeks(#[trigger] pack[b], flock[s].id) by {
                if a < old_pack.len() && b < old_pack.len() {
                    assert(seeks(old_pack[a], old_flock[s].id));
                    assert(!seeks(old_pack[b], old_flock[s].id));
                } else if a < old_pack.len() {
                    assert(seeks(old_pack[a], old_flock[s].id));
                    assert(old_flock[s].under_hunting);
                    if s != n - 1 {
                        assert(sheep[s].id != sheep[n - 1].id);
                    }
                } else {
                    if s != n - 1 {
                        assert(sheep[s].id != sheep[n - 1].id);
                    }
                    if seeks(old_pack[b], old_flock[n - 1].id) {
                        assert(old_flock[n - 1].under_hunting);
                    }
                }
            }
        } else {
            assert(pack =~= old_pack);
            assert(flock =~= old_flock);
        }
    }
}

} // verus!

//! The pug guard/alert state machine, evaluated once per tick for each pug,
//! driven by two signals: "the fox moved this tick" and "a bone was just
//! thrown".

use vstd::prelude::*;

use crate::entities::{pug_wf, LiveState, Pug, PugState, TimeMs, DEAD_REMOVAL_MS};
use crate::geom::{cell, dir_toward, Pos};
use crate::level::Level;

verus! {

/// The first position of `cands` that also occurs in `others`.
pub open spec fn spec_first_shared(cands: Seq<Pos>, others: Seq<Pos>) -> Option<Pos>
    decreases cands.len(),
{
    if cands.len() == 0 {
        None
    } else if others.contains(cands[0]) {
        Some(cands[0])
    } else {
        spec_first_shared(cands.drop_first(), others)
    }
}

pub proof fn lemma_first_shared_props(cands: Seq<Pos>, others: Seq<Pos>)
    ensures
        match spec_first_shared(cands, others) {
            Some(q) => cands.contains(q) && others.contains(q),
            None => true,
        },
    decreases cands.len(),
{
    if cands.len() > 0 {
        if others.contains(cands[0]) {
        } else {
            lemma_first_shared_props(cands.drop_first(), others);
            if let Some(q) = spec_first_shared(cands.drop_first(), others) {
                let i = choose|i: int|
                    0 <= i < cands.drop_first().len() && cands.drop_first()[i] == q;
                assert(cands[i + 1] == q);
            }
        }
    }
}

/// Whether `v` holds the position `p`.
pub fn contains_pos(v: &Vec<Pos>, p: Pos) -> (r: bool)
    ensures
        r == v@.contains(p),
{
    let mut k: usize = 0;
    while k < v.len()
        invariant
            k <= v@.len(),
            forall|i: int| 0 <= i < k ==> v@[i] != p,
        decreases v@.len() - k,
    {
        if v[k] == p {
            return true;
        }
        k += 1;
    }
    false
}

/// The first position cardinally adjacent to the pug that is also next to
/// the bone, in the fixed neighbor order.
pub fn first_shared(cands: &Vec<Pos>, others: &Vec<Pos>) -> (r: Option<Pos>)
    ensures
        r == spec_first_shared(cands@, others@),
{
    let mut k: usize = 0;
    proof {
        assert(cands@.skip(0) =~= cands@);
    }
    while k < cands.len()
        invariant
            k <= cands@.len(),
            spec_first_shared(cands@, others@) == spec_first_shared(
                cands@.skip(k as int),
                others@,
            ),
        decreases cands@.len() - k,
    {
        let c = cands[k];
        proof {
            assert(cands@.skip(k as int)[0] == c);
        }
        if contains_pos(others, c) {
            return Some(c);
        }
        proof {
            assert(cands@.skip(k as int).drop_first() =~= cands@.skip(k as int + 1));
        }
        k += 1;
    }
    None
}

/// One tick of the state machine for a single pug.  Returns the stepped pug
/// and whether it caught the fox at `fox_pos` this tick.
pub open spec fn spec_step_pug(
    p: Pug,
    level: Level,
    fox_pos: Pos,
    fox_moved: bool,
    dt: TimeMs,
) -> (Pug, bool) {
    match p.live_state {
        LiveState::Alive => match p.state {
            PugState::Guarding => {
                if fox_moved && p.spec_watched_pos() == Some(fox_pos) {
                    ((Pug { pos: fox_pos, ..p }), true)
                } else {
                    (p, false)
                }
            },
            PugState::Suprised(bone_pos) => {
                let bone_plus = level.spec_adjacent_four(bone_pos).push(bone_pos);
                match p.spec_watched_pos() {
                    None => (p, false),
                    Some(w) => {
                        if w == bone_pos || bone_plus.contains(w) {
                            ((Pug { state: PugState::Alerted(w, bone_pos), ..p }), false)
                        } else {
                            match spec_first_shared(level.spec_adjacent_four(p.pos), bone_plus) {
                                Some(q) => (
                                    (Pug {
                                        state: PugState::Alerted(q, bone_pos),
                                        dir: dir_toward(cell(p.pos), cell(q)),
                                        ..p
                                    }),
                                    false,
                                ),
                                None => ((Pug { state: PugState::Guarding, ..p }), false),
                            }
                        }
                    },
                }
            },
            PugState::Alerted(target, bone_pos) => {
                if fox_moved {
                    (
                        (Pug {
                            pos: target,
                            dir: dir_toward(cell(p.pos), cell(target)),
                            state: if target == bone_pos {
                                PugState::Guarding
                            } else {
                                PugState::Alerted(bone_pos, bone_pos)
                            },
                            ..p
                        }),
                        target == fox_pos,
                    )
                } else {
                    (p, false)
                }
            },
        },
        LiveState::Dead(t) => (
            (Pug {
                live_state: LiveState::Dead(
                    if t + dt <= TimeMs::MAX {
                        (t + dt) as TimeMs
                    } else {
                        TimeMs::MAX
                    },
                ),
                ..p
            }),
            false,
        ),
    }
}

/// Advances one pug by one tick.
///
/// The contract pins the new pug and the kill verdict to the state machine's
/// transition function; in particular a guarding pug catches the fox exactly
/// when the fox just moved onto the watched tile, and an alerted pug whose
/// target is the investigated bone reverts to guarding on the next fox-move
/// tick.
pub fn step_pug(p: &mut Pug, level: &Level, fox_pos: Pos, fox_moved: bool, dt: TimeMs) -> (killed_fox:
    bool)
    requires
        level.wf(),
        pug_wf(*old(p)),
    ensures
        (*final(p), killed_fox) == spec_step_pug(*old(p), *level, fox_pos, fox_moved, dt),
        pug_wf(*final(p)),
        old(p).live_state is Alive && old(p).state is Guarding ==> (killed_fox <==> (fox_moved
            && old(p).spec_watched_pos() == Some(fox_pos))),
        ({
            &&& old(p).live_state is Alive
            &&& fox_moved
            &&& old(p).state matches PugState::Alerted(t, b) && t == b
        }) ==> final(p).state is Guarding,
{
    match p.live_state {
        LiveState::Alive => {
            match p.state {
                PugState::Guarding => {
                    if fox_moved {
                        if let Some(watched) = p.get_watched_pos() {
                            if watched == fox_pos {
                                p.attack(fox_pos);
                                return true;
                            }
                        }
                    }
                    false
                },
                PugState::Suprised(bone_pos) => {
                    let mut bone_plus = level.get_adjacent_four(bone_pos);
                    bone_plus.push(bone_pos);
                    if let Some(watched) = p.get_watched_pos() {
                        if watched == bone_pos {
                            p.set_alerted(watched, bone_pos);
                        } else if contains_pos(&bone_plus, watched) {
                            proof {
                                lemma_watched_cardinal(*old(p), watched);
                                level.lemma_adjacent_four_membership(bone_pos, watched);
                                assert(bone_plus@.drop_last() =~= level.spec_adjacent_four(
                                    bone_pos,
                                ));
                            }
                            p.set_alerted(watched, bone_pos);
                        } else {
                            let pug_four = level.get_adjacent_four(p.pos);
                            let found = first_shared(&pug_four, &bone_plus);
                            match found {
                                Some(q) => {
                                    proof {
                                        lemma_first_shared_props(pug_four@, bone_plus@);
                                        level.lemma_adjacent_four_membership(old(p).pos, q);
                                        level.lemma_adjacent_four_membership(bone_pos, q);
                                        assert(bone_plus@.drop_last() =~= level.spec_adjacent_four(
                                            bone_pos,
                                        ));
                                        if q != bone_pos {
                                            assert(level.spec_adjacent_four(bone_pos).contains(q))
                                                by {
                                                let i = choose|i: int|
                                                    0 <= i < bone_plus@.len() && bone_plus@[i]
                                                        == q;
                                                assert(i < bone_plus@.len() - 1);
                                                assert(bone_plus@.drop_last()[i] == q);
                                            }
                                        }
                                    }
                                    p.set_alerted(q, bone_pos);
                                    p.set_facing(q);
                                },
                                None => {
                                    p.set_guarding();
                                },
                            }
                        }
                    }
                    false
                },
                PugState::Alerted(target, bone_pos) => {
                    if fox_moved {
                        p.set_facing(target);
                        p.attack(target);
                        if target == bone_pos {
                            p.set_guarding();
                        } else {
                            p.set_alerted(bone_pos, bone_pos);
                        }
                        target == fox_pos
                    } else {
                        false
                    }
                },
            }
        },
        LiveState::Dead(t) => {
            p.live_state = LiveState::Dead(crate::entities::advance_timer(t, dt));
            false
        },
    }
}

/// A watched tile lies one cardinal step from the pug.
pub proof fn lemma_watched_cardinal(p: Pug, w: Pos)
    requires
        p.spec_watched_pos() == Some(w),
    ensures
        crate::geom::is_cardinal_step(cell(p.pos), cell(w)),
{
}

/// The bone-thrown signal: every alive pug standing on an existing tile next
/// to the bone's landing cell is surprised by it; every other pug is left as
/// it was.
pub open spec fn spec_apply_bone(level: Level, pugs: Seq<Pug>, bone_pos: Pos) -> Seq<Pug> {
    pugs.map_values(
        |p: Pug|
            if p.live_state is Alive && level.spec_adjacent_eight(bone_pos).contains(p.pos) {
                Pug { state: PugState::Suprised(bone_pos), ..p }
            } else {
                p
            },
    )
}

impl Level {
    /// Flips every alive pug within the eight existing-tile neighbors of
    /// `bone_pos` to `Suprised(bone_pos)`; every pug outside that set keeps
    /// its state.
    pub fn apply_bone_to_pugs(&self, pugs: &mut Vec<Pug>, bone_pos: Pos)
        requires
            self.wf(),
        ensures
            final(pugs)@ == spec_apply_bone(*self, old(pugs)@, bone_pos),
            final(pugs)@.len() == old(pugs)@.len(),
            forall|i: int|
                0 <= i < old(pugs)@.len() && old(pugs)@[i].live_state is Alive
                    && self.spec_adjacent_eight(bone_pos).contains(old(pugs)@[i].pos)
                    ==> #[trigger] final(pugs)@[i] == (Pug {
                    state: PugState::Suprised(bone_pos),
                    ..old(pugs)@[i]
                }),
            forall|i: int|
                0 <= i < old(pugs)@.len() && !(old(pugs)@[i].live_state is Alive
                    && self.spec_adjacent_eight(bone_pos).contains(old(pugs)@[i].pos))
                    ==> #[trigger] final(pugs)@[i] == old(pugs)@[i],
            forall|i: int|
                0 <= i < old(pugs)@.len() && pug_wf(old(pugs)@[i]) ==> pug_wf(
                    #[trigger] final(pugs)@[i],
                ),
    {
        let tiles = self.get_adjacent_eight(bone_pos);
        let mut i: usize = 0;
        while i < pugs.len()
            invariant
                self.wf(),
                i <= pugs@.len(),
                pugs@.len() == old(pugs)@.len(),
                tiles@ == self.spec_adjacent_eight(bone_pos),
                forall|j: int|
                    0 <= j < i ==> #[trigger] pugs@[j] == spec_apply_bone(
                        *self,
                        old(pugs)@,
                        bone_pos,
                    )[j],
                forall|j: int| i <= j < pugs@.len() ==> #[trigger] pugs@[j] == old(pugs)@[j],
            decreases pugs@.len() - i,
        {
            let mut p = pugs[i];
            let alive = match p.live_state {
                LiveState::Alive => true,
                LiveState::Dead(_) => false,
            };
            if alive && contains_pos(&tiles, p.pos) {
                p.set_suprised(bone_pos);
            }
            pugs[i] = p;
            i += 1;
        }
        assert(pugs@ =~= spec_apply_bone(*self, old(pugs)@, bone_pos));
    }
}

/// Advances every pug by one tick.  Returns whether any pug caught the fox.
pub fn step_pugs(
    pugs: &mut Vec<Pug>,
    level: &Level,
    fox_pos: Pos,
    fox_moved: bool,
    dt: TimeMs,
) -> (killed_fox: bool)
    requires
        level.wf(),
        forall|i: int| 0 <= i < old(pugs)@.len() ==> pug_wf(#[trigger] old(pugs)@[i]),
    ensures
        final(pugs)@.len() == old(pugs)@.len(),
        forall|i: int|
            0 <= i < old(pugs)@.len() ==> #[trigger] final(pugs)@[i] == spec_step_pug(
                old(pugs)@[i],
                *level,
                fox_pos,
                fox_moved,
                dt,
            ).0,
        killed_fox == exists|i: int|
            0 <= i < old(pugs)@.len() && #[trigger] spec_step_pug(
                old(pugs)@[i],
                *level,
                fox_pos,
                fox_moved,
                dt,
            ).1,
        forall|i: int| 0 <= i < final(pugs)@.len() ==> pug_wf(#[trigger] final(pugs)@[i]),
{
    let mut killed: bool = false;
    let mut i: usize = 0;
    while i < pugs.len()
        invariant
            level.wf(),
            i <= pugs@.len(),
            pugs@.len() == old(pugs)@.len(),
            forall|j: int| 0 <= j < old(pugs)@.len() ==> pug_wf(#[trigger] old(pugs)@[j]),
            forall|j: int|
                0 <= j < i ==> #[trigger] pugs@[j] == spec_step_pug(
                    old(pugs)@[j],
                    *level,
                    fox_pos,
                    fox_moved,
                    dt,
                ).0,
            forall|j: int| 0 <= j < i ==> pug_wf(#[trigger] pugs@[j]),
            forall|j: int| i <= j < pugs@.len() ==> #[trigger] pugs@[j] == old(pugs)@[j],
            killed == exists|j: int|
                0 <= j < i && #[trigger] spec_step_pug(
                    old(pugs)@[j],
                    *level,
                    fox_pos,
                    fox_moved,
                    dt,
                ).1,
        decreases pugs@.len() - i,
    {
        let mut p = pugs[i];
        let k = step_pug(&mut p, level, fox_pos, fox_moved, dt);
        pugs[i] = p;
        if k {
            killed = true;
        }
        proof {
            if k {
                assert(spec_step_pug(old(pugs)@[i as int], *level, fox_pos, fox_moved, dt).1);
            }
        }
        i += 1;
    }
    killed
}

/// A dead pug whose dead-timer has reached the removal threshold.
pub open spec fn pug_finished(p: Pug) -> bool {
    match p.live_state {
        LiveState::Dead(t) => t >= DEAD_REMOVAL_MS,
        LiveState::Alive => false,
    }
}

/// The predicate that keeps a pug in the world.
pub open spec fn pug_keep() -> spec_fn(Pug) -> bool {
    |p: Pug| !pug_finished(p)
}

/// Removes the pugs whose dead-timer has reached the removal threshold; all
/// other pugs survive in order.  Afterwards no finished pug remains.
pub fn remove_finished_pugs(pugs: &mut Vec<Pug>)
    ensures
        final(pugs)@ == old(pugs)@.filter(pug_keep()),
        forall|i: int| 0 <= i < final(pugs)@.len() ==> !pug_finished(#[trigger] final(pugs)@[i]),
        forall|i: int|
            0 <= i < final(pugs)@.len() ==> old(pugs)@.contains(#[trigger] final(pugs)@[i]),
{
    let ghost orig = pugs@;
    let mut out: Vec<Pug> = Vec::new();
    let mut i: usize = 0;
    while i < pugs.len()
        invariant
            i <= pugs@.len(),
            pugs@ == orig,
            out@ == orig.subrange(0, i as int).filter(pug_keep()),
        decreases pugs@.len() - i,
    {
        let p = pugs[i];
        let finished = match p.live_state {
            LiveState::Dead(t) => t >= DEAD_REMOVAL_MS,
            LiveState::Alive => false,
        };
        proof {
            reveal(Seq::filter);
            let t = orig.subrange(0, i as int);
            let t2 = orig.subrange(0, i as int + 1);
            assert(t2.drop_last() =~= t);
            assert(t2.last() == orig[i as int]);
        }
        if !finished {
            out.push(p);
        }
        i += 1;
    }
    proof {
        assert(orig.subrange(0, orig.len() as int) =~= orig);
    }
    *pugs = out;
    proof {
        broadcast use vstd::seq_lib::group_filter_ensures;

        assert forall|i: int| 0 <= i < final(pugs)@.len() implies !pug_finished(
            #[trigger] final(pugs)@[i],
        ) by {
            assert(pug_keep()(final(pugs)@[i]));
        }
        assert forall|i: int| 0 <= i < final(pugs)@.len() implies old(pugs)@.contains(
            #[trigger] final(pugs)@[i],
        ) by {
            lemma_filter_elem_membership(old(pugs)@, pug_keep(), i);
        }
    }
}

/// Every element of a filtered sequence occurs in the original one.
pub proof fn lemma_filter_elem_membership<A>(s: Seq<A>, pred: spec_fn(A) -> bool, i: int)
    requires
        0 <= i < s.filter(pred).len(),
    ensures
        s.contains(s.filter(pred)[i]),
    decreases s.len(),
{
    reveal(Seq::filter);
    if s.len() > 0 {
        let sub = s.drop_last().filter(pred);
        if i < sub.len() {
            lemma_filter_elem_membership(s.drop_last(), pred, i);
            let j = choose|j: int| 0 <= j < s.drop_last().len() && s.drop_last()[j] == sub[i];
            assert(s[j] == s.filter(pred)[i]);
        } else {
            assert(s[s.len() - 1] == s.filter(pred)[i]);
        }
    }
}

} // verus!

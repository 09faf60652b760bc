//! The per-tick world update and the level-lifecycle state machine.
//!
//! Each tick the caller supplies elapsed time and the pressed keys.  In the
//! running state the update resolves bone interactions, fox movement, pug
//! AI, pug cleanup, mail pickup and the victory check, in that fixed order.
//! Sound cues and level load requests are reported back as plain values;
//! the embedding program plays the cues and hands freshly parsed blueprints
//! back in.

use vstd::prelude::*;

use crate::blueprint::{
    load_level, spec_level_of, spec_load_bones, spec_load_fox, spec_load_mail, spec_load_mailbox,
    spec_load_pugs, LevelBlueprint, LoadError,
};
use crate::entities::{
    bone_wf, pug_wf, Bone, Fox, LiveState, Mail, Mailbox, Pug, TimeMs, DISAPPEARING_TIME_MS,
};
use crate::geom::{
    spec_dir_from_vec, spec_offset, spec_resolve_input, Pos,
};
use crate::level::Level;
use crate::pug_ai::{pug_finished, pug_keep, spec_apply_bone, spec_step_pug};

verus! {

/// The level-lifecycle state.
#[derive(Clone, Copy, Debug, PartialEq, Eq, Structural)]
pub enum GameState {
    StartMenu,
    Credits,
    Running,
    Won,
    GameOver,
}

/// The keys the caller saw pressed for this tick, plus whether the
/// level-lost cue is still audible (so it is not re-triggered).
#[derive(Clone, Copy, Debug, PartialEq, Eq, Structural)]
pub struct Input {
    pub left: bool,
    pub right: bool,
    pub up: bool,
    pub down: bool,
    pub confirm: bool,
    pub lost_sound_playing: bool,
}

impl Input {
    pub fn none() -> (r: Input)
        ensures
            r == (Input {
                left: false,
                right: false,
                up: false,
                down: false,
                confirm: false,
                lost_sound_playing: false,
            }),
    {
        Input {
            left: false,
            right: false,
            up: false,
            down: false,
            confirm: false,
            lost_sound_playing: false,
        }
    }
}

/// The one-way sound cues a tick asks the audio sink to play.
#[derive(Clone, Copy, Debug, PartialEq, Eq, Structural)]
pub struct SoundEvents {
    pub fox_move: bool,
    pub bark: bool,
    pub got_mail: bool,
    pub won_level: bool,
    pub lost_level: bool,
}

impl SoundEvents {
    /// No cue at all.
    pub open spec fn spec_silent() -> SoundEvents {
        SoundEvents {
            fox_move: false,
            bark: false,
            got_mail: false,
            won_level: false,
            lost_level: false,
        }
    }

    pub fn silent() -> (r: SoundEvents)
        ensures
            r == SoundEvents::spec_silent(),
    {
        SoundEvents {
            fox_move: false,
            bark: false,
            got_mail: false,
            won_level: false,
            lost_level: false,
        }
    }
}

/// A request to the embedding program to parse a level and hand the
/// blueprint back through `install_level`.
#[derive(Debug, PartialEq, Eq)]
pub enum LoadRequest {
    /// Load the level of this name.
    Level(String),
    /// Load the canonical start level.
    StartLevel,
}

/// What one tick hands back to the caller.
#[derive(Debug)]
pub struct TickOutput {
    pub sounds: SoundEvents,
    pub load: Option<LoadRequest>,
}

/// The aggregate game world: the current lifecycle state and every entity
/// of the loaded level.
pub struct GameWorld {
    pub game_state: GameState,
    pub fox: Fox,
    pub mailbox: Mailbox,
    pub level: Level,
    pub mail: Mail,
    pub pugs: Vec<Pug>,
    pub bones: Vec<Bone>,
    /// Elapsed level time in milliseconds; reset when a level is (re)loaded
    /// and when the fox is killed.
    pub time: TimeMs,
}

impl GameWorld {
    /// The world invariant: the grid is well formed, every pug satisfies the
    /// pug state machine's invariant, and no thrown bone is still selected.
    pub open spec fn wf(&self) -> bool {
        &&& self.level.wf()
        &&& forall|i: int| 0 <= i < self.pugs@.len() ==> pug_wf(#[trigger] self.pugs@[i])
        &&& forall|i: int| 0 <= i < self.bones@.len() ==> bone_wf(#[trigger] self.bones@[i])
    }
}

/// While a thrown bone's countdown runs, it is visible on every tenth
/// rounded centisecond: the fixed blink cadence.
pub open spec fn blink_visible(t: TimeMs) -> bool {
    ((t + 5) / 10) % 10 == 0
}

fn blink_now(t: TimeMs) -> (r: bool)
    ensures
        r == blink_visible(t),
{
    let cs = (t as u64 + 5) / 10;
    (cs % 10) == 0
}

/// One tick of a single bone: a selected bone is thrown along the movement
/// vector when the destination tile exists (surprising nearby pugs), a used
/// bone ticks its disappearing countdown and blinks, and an unused,
/// unselected bone under the fox becomes selected.  The boolean reports
/// whether the bone consumed the tick (a throw or a pickup).
pub open spec fn spec_step_bone(
    b: Bone,
    pugs: Seq<Pug>,
    level: Level,
    fox_pos: Pos,
    dx: int,
    dy: int,
    dt: TimeMs,
) -> (Bone, Seq<Pug>, bool) {
    let movement_requested = dx != 0 || dy != 0;
    let thrown = if b.is_selected && movement_requested {
        match spec_offset(b.pos, dx, dy) {
            Some(np) => if level.spec_has_tile(np.x as int, np.y as int) {
                Some(np)
            } else {
                None
            },
            None => None,
        }
    } else {
        None
    };
    let b1 = match thrown {
        Some(np) => Bone {
            pos: np,
            is_used: true,
            is_selected: false,
            disappearing_time: DISAPPEARING_TIME_MS,
            ..b
        },
        None => b,
    };
    let pugs1 = match thrown {
        Some(np) => spec_apply_bone(level, pugs, np),
        None => pugs,
    };
    let b2 = if b1.is_used {
        if b1.disappearing_time > 0 {
            let t2 = if b1.disappearing_time >= dt {
                (b1.disappearing_time - dt) as TimeMs
            } else {
                0
            };
            Bone { disappearing_time: t2, is_visible: t2 > 0 && blink_visible(t2), ..b1 }
        } else {
            Bone { is_visible: false, ..b1 }
        }
    } else {
        b1
    };
    let grabbed = fox_pos == b2.pos && !b2.is_used;
    let b3 = if grabbed {
        Bone { is_selected: true, ..b2 }
    } else {
        b2
    };
    (b3, pugs1, thrown is Some || grabbed)
}

/// All bones of one tick, processed in order, threading the pug collection
/// through each bone-thrown signal.
pub open spec fn spec_step_bones(
    bones: Seq<Bone>,
    pugs: Seq<Pug>,
    level: Level,
    fox_pos: Pos,
    dx: int,
    dy: int,
    dt: TimeMs,
) -> (Seq<Bone>, Seq<Pug>, bool)
    decreases bones.len(),
{
    if bones.len() == 0 {
        (bones, pugs, false)
    } else {
        let prev = spec_step_bones(bones.drop_last(), pugs, level, fox_pos, dx, dy, dt);
        let stepped = spec_step_bone(bones.last(), prev.1, level, fox_pos, dx, dy, dt);
        (prev.0.push(stepped.0), stepped.1, prev.2 || stepped.2)
    }
}

/// Advances every bone by one tick.  Returns whether a bone consumed the
/// tick, which suppresses fox movement.
fn step_bones(
    bones: &mut Vec<Bone>,
    pugs: &mut Vec<Pug>,
    level: &Level,
    fox_pos: Pos,
    dx: i32,
    dy: i32,
    dt: TimeMs,
) -> (fox_has_bone: bool)
    requires
        level.wf(),
        -1 <= dx <= 1,
        -1 <= dy <= 1,
        forall|i: int| 0 <= i < old(pugs)@.len() ==> pug_wf(#[trigger] old(pugs)@[i]),
        forall|i: int| 0 <= i < old(bones)@.len() ==> bone_wf(#[trigger] old(bones)@[i]),
    ensures
        ({
            let stepped = spec_step_bones(
                old(bones)@,
                old(pugs)@,
                *level,
                fox_pos,
                dx as int,
                dy as int,
                dt,
            );
            &&& final(bones)@ == stepped.0
            &&& final(pugs)@ == stepped.1
            &&& fox_has_bone == stepped.2
        }),
        forall|i: int| 0 <= i < final(pugs)@.len() ==> pug_wf(#[trigger] final(pugs)@[i]),
        forall|i: int| 0 <= i < final(bones)@.len() ==> bone_wf(#[trigger] final(bones)@[i]),
{
    let ghost orig_bones = bones@;
    let mut fox_has_bone: bool = false;
    let mut i: usize = 0;
    proof {
        assert(orig_bones.subrange(0, 0) =~= Seq::<Bone>::empty());
    }
    while i < bones.len()
        invariant
            level.wf(),
            i <= bones@.len(),
            bones@.len() == orig_bones.len(),
            forall|j: int| i <= j < bones@.len() ==> #[trigger] bones@[j] == orig_bones[j],
            ({
                let stepped = spec_step_bones(
                    orig_bones.subrange(0, i as int),
                    old(pugs)@,
                    *level,
                    fox_pos,
                    dx as int,
                    dy as int,
                    dt,
                );
                &&& bones@.subrange(0, i as int) == stepped.0
                &&& pugs@ == stepped.1
                &&& fox_has_bone == stepped.2
            }),
            forall|j: int| 0 <= j < pugs@.len() ==> pug_wf(#[trigger] pugs@[j]),
            forall|j: int| 0 <= j < orig_bones.len() ==> bone_wf(#[trigger] orig_bones[j]),
            forall|j: int| 0 <= j < i ==> bone_wf(#[trigger] bones@[j]),
        decreases bones@.len() - i,
    {
        let ghost pre_pugs = pugs@;
        let mut b = bones[i];
        let movement_requested = dx != 0 || dy != 0;
        if b.is_selected && movement_requested {
            if let Some(np) = crate::geom::offset_pos(b.pos, dx, dy) {
                if level.has_tile(np.x, np.y) {
                    b.pos = np;
                    b.is_used = true;
                    b.is_selected = false;
                    b.disappearing_time = DISAPPEARING_TIME_MS;
                    fox_has_bone = true;
                    level.apply_bone_to_pugs(pugs, np);
                }
            }
        }
        if b.is_used {
            if b.disappearing_time > 0 {
                let t2 = if b.disappearing_time >= dt {
                    b.disappearing_time - dt
                } else {
                    0
                };
                b.disappearing_time = t2;
                b.is_visible = t2 > 0 && blink_now(t2);
            } else {
                b.is_visible = false;
            }
        }
        if fox_pos == b.pos && !b.is_used {
            fox_has_bone = true;
            b.is_selected = true;
        }
        bones[i] = b;
        i += 1;
        proof {
            let sub2 = orig_bones.subrange(0, i as int);
            assert(sub2.drop_last() =~= orig_bones.subrange(0, i as int - 1));
            assert(sub2.last() == orig_bones[i as int - 1]);
            let stepped_pre = spec_step_bones(
                sub2.drop_last(),
                old(pugs)@,
                *level,
                fox_pos,
                dx as int,
                dy as int,
                dt,
            );
            let one = spec_step_bone(
                orig_bones[i as int - 1],
                pre_pugs,
                *level,
                fox_pos,
                dx as int,
                dy as int,
                dt,
            );
            assert(bones@[i as int - 1] == one.0);
            assert(pugs@ == one.1);
            assert(bones@.subrange(0, i as int) =~= stepped_pre.0.push(one.0));
        }
    }
    proof {
        assert(orig_bones.subrange(0, orig_bones.len() as int) =~= orig_bones);
        assert(bones@.subrange(0, bones@.len() as int) =~= bones@);
    }
    fox_has_bone
}

/// The pugs after the fox moved onto `dest`: any alive pug standing there
/// is killed, its dead-timer starting at zero.
pub open spec fn spec_kill_pugs_at(pugs: Seq<Pug>, dest: Pos) -> Seq<Pug> {
    pugs.map_values(
        |p: Pug|
            if p.pos == dest && p.live_state is Alive {
                Pug { live_state: LiveState::Dead(0), ..p }
            } else {
                p
            },
    )
}

/// Some alive pug stands on `dest`.
pub open spec fn spec_any_alive_at(pugs: Seq<Pug>, dest: Pos) -> bool {
    exists|i: int|
        0 <= i < pugs.len() && (#[trigger] pugs[i]).pos == dest && pugs[i].live_state is Alive
}

/// The cell the fox would move onto, when the movement vector is nonzero
/// and that cell has a tile; `None` otherwise (the move is a no-op).
pub open spec fn spec_move_dest(fox: Fox, level: Level, dx: int, dy: int) -> Option<Pos> {
    if dx == 0 && dy == 0 {
        None
    } else {
        match spec_offset(fox.pos, dx, dy) {
            Some(np) => if level.spec_has_tile(np.x as int, np.y as int) {
                Some(np)
            } else {
                None
            },
            None => None,
        }
    }
}

impl GameWorld {
    /// Tries to move the fox by the resolved movement vector.  Moving into a
    /// cell without a tile (or off the grid) changes nothing at all — the
    /// fox keeps its position and facing.  A successful move relocates the
    /// fox, turns it toward the movement direction, and kills any alive pug
    /// on the destination cell.
    pub fn try_move_fox(&mut self, dx: i32, dy: i32) -> (moved: bool)
        requires
            old(self).wf(),
            dx == 0 && dy == 0 || spec_dir_from_vec(dx as int, dy as int) is Some,
        ensures
            final(self).wf(),
            moved == (spec_move_dest(old(self).fox, old(self).level, dx as int, dy as int)
                is Some),
            !moved ==> *final(self) == *old(self),
            moved ==> ({
                let np = match spec_move_dest(old(self).fox, old(self).level, dx as int, dy as int) {
                    Some(p) => p,
                    None => old(self).fox.pos,
                };
                &&& final(self).fox == (Fox {
                    pos: np,
                    dir: match spec_dir_from_vec(dx as int, dy as int) {
                        Some(d) => d,
                        None => old(self).fox.dir,
                    },
                    ..old(self).fox
                })
                &&& final(self).pugs@ == spec_kill_pugs_at(old(self).pugs@, np)
                &&& *final(self) == (GameWorld {
                    fox: final(self).fox,
                    pugs: final(self).pugs,
                    ..*old(self)
                })
            }),
    {
        if dx == 0 && dy == 0 {
            return false;
        }
        let np = match crate::geom::offset_pos(self.fox.pos, dx, dy) {
            Some(p) => p,
            None => {
                return false;
            },
        };
        if !self.level.has_tile(np.x, np.y) {
            return false;
        }
        let d = match crate::geom::Direction::from_vector2(dx, dy) {
            Some(d) => d,
            None => {
                proof {
                    assert(false);
                }
                crate::geom::Direction::North
            },
        };
        self.fox.pos = np;
        self.fox.dir = d;
        let ghost orig_pugs = self.pugs@;
        let ghost mid = *self;
        let mut i: usize = 0;
        while i < self.pugs.len()
            invariant
                i <= self.pugs@.len(),
                self.fox == mid.fox,
                self.level == mid.level,
                self.mailbox == mid.mailbox,
                self.mail == mid.mail,
                self.bones == mid.bones,
                self.game_state == mid.game_state,
                self.time == mid.time,
                self.pugs@.len() == orig_pugs.len(),
                forall|j: int|
                    0 <= j < i ==> #[trigger] self.pugs@[j] == spec_kill_pugs_at(orig_pugs, np)[j],
                forall|j: int| i <= j < self.pugs@.len() ==> #[trigger] self.pugs@[j] == orig_pugs[j],
                forall|j: int|
                    0 <= j < orig_pugs.len() ==> pug_wf(#[trigger] orig_pugs[j]),
            decreases self.pugs@.len() - i,
        {
            let mut p = self.pugs[i];
            let alive = match p.live_state {
                LiveState::Alive => true,
                LiveState::Dead(_) => false,
            };
            if alive && p.pos == np {
                p.live_state = LiveState::Dead(0);
            }
            self.pugs[i] = p;
            i += 1;
        }
        proof {
            assert(self.pugs@ =~= spec_kill_pugs_at(orig_pugs, np));
            assert forall|j: int| 0 <= j < self.pugs@.len() implies pug_wf(
                #[trigger] self.pugs@[j],
            ) by {
                assert(pug_wf(orig_pugs[j]));
            }
        }
        true
    }
}

/// Whether some alive pug stands on `dest`.
fn any_alive_at(pugs: &Vec<Pug>, dest: Pos) -> (r: bool)
    ensures
        r == spec_any_alive_at(pugs@, dest),
{
    let mut i: usize = 0;
    while i < pugs.len()
        invariant
            i <= pugs@.len(),
            forall|j: int|
                0 <= j < i ==> !((#[trigger] pugs@[j]).pos == dest && pugs@[j].live_state
                    is Alive),
        decreases pugs@.len() - i,
    {
        let p = pugs[i];
        let alive = match p.live_state {
            LiveState::Alive => true,
            LiveState::Dead(_) => false,
        };
        if alive && p.pos == dest {
            return true;
        }
        i += 1;
    }
    false
}

/// One tick of the running state.
///
/// In order: bones are thrown, blinked and picked up; the fox moves unless
/// a bone consumed the tick; every pug advances one state-machine step; a
/// pug that caught the fox kills it and ends the level; finished dead pugs
/// are removed; standing on the mail picks it up; standing on the mailbox
/// with the mail wins the level.  The returned components are the new game
/// state, fox, pugs, bones, level time, and sound cues.
pub open spec fn spec_running_tick(w: GameWorld, input: Input, dt: TimeMs) -> (
    GameState,
    Fox,
    Seq<Pug>,
    Seq<Bone>,
    TimeMs,
    SoundEvents,
) {
    let mv = spec_resolve_input(input.left, input.right, input.up, input.down);
    let bstep = spec_step_bones(w.bones@, w.pugs@, w.level, w.fox.pos, mv.0, mv.1, dt);
    let dest = if bstep.2 {
        None
    } else {
        spec_move_dest(w.fox, w.level, mv.0, mv.1)
    };
    let moved = dest is Some;
    let fox1 = match dest {
        Some(np) => Fox {
            pos: np,
            dir: match spec_dir_from_vec(mv.0, mv.1) {
                Some(d) => d,
                None => w.fox.dir,
            },
            ..w.fox
        },
        None => w.fox,
    };
    let killed_pug = match dest {
        Some(np) => spec_any_alive_at(bstep.1, np),
        None => false,
    };
    let pugs2 = match dest {
        Some(np) => spec_kill_pugs_at(bstep.1, np),
        None => bstep.1,
    };
    let pugs3 = spec_step_all_pugs(pugs2, w.level, fox1.pos, moved, dt);
    let killed_fox = spec_any_pug_kills(pugs2, w.level, fox1.pos, moved, dt);
    let fox2 = if killed_fox {
        Fox { state: LiveState::Dead(0), ..fox1 }
    } else {
        fox1
    };
    let state1 = if killed_fox {
        GameState::GameOver
    } else {
        w.game_state
    };
    let pugs4 = pugs3.filter(pug_keep());
    let got_mail = !fox2.has_mail && fox2.pos == w.mail.pos;
    let fox3 = if got_mail {
        Fox { has_mail: true, ..fox2 }
    } else {
        fox2
    };
    let won = fox3.pos == w.mailbox.pos && fox3.has_mail;
    let state2 = if won {
        GameState::Won
    } else {
        state1
    };
    let time2: TimeMs = if killed_fox {
        0
    } else if w.time + dt <= TimeMs::MAX {
        (w.time + dt) as TimeMs
    } else {
        TimeMs::MAX
    };
    let sounds = SoundEvents {
        fox_move: moved,
        bark: killed_fox,
        got_mail,
        won_level: won,
        lost_level: killed_pug && !input.lost_sound_playing,
    };
    (state2, fox3, pugs4, bstep.0, time2, sounds)
}

/// Every pug advanced by one state-machine step.
pub open spec fn spec_step_all_pugs(
    pugs: Seq<Pug>,
    level: Level,
    fox_pos: Pos,
    moved: bool,
    dt: TimeMs,
) -> Seq<Pug> {
    pugs.map_values(|p: Pug| spec_step_pug(p, level, fox_pos, moved, dt).0)
}

/// Some pug catches the fox this tick.
pub open spec fn spec_any_pug_kills(
    pugs: Seq<Pug>,
    level: Level,
    fox_pos: Pos,
    moved: bool,
    dt: TimeMs,
) -> bool {
    exists|i: int|
        0 <= i < pugs.len() && (#[trigger] spec_step_pug(pugs[i], level, fox_pos, moved, dt)).1
}

impl GameWorld {
    /// The cell the fox would move onto this tick, if the move succeeds.
    fn move_dest(&self, dx: i32, dy: i32) -> (r: Option<Pos>)
        requires
            self.level.wf(),
        ensures
            r == spec_move_dest(self.fox, self.level, dx as int, dy as int),
    {
        if dx == 0 && dy == 0 {
            return None;
        }
        match crate::geom::offset_pos(self.fox.pos, dx, dy) {
            Some(np) => {
                if self.level.has_tile(np.x, np.y) {
                    Some(np)
                } else {
                    None
                }
            },
            None => None,
        }
    }

    /// Advances the world by one running-state tick.
    ///
    /// Besides pinning every component to `spec_running_tick`, the contract
    /// states that the mail flag never goes back to false and that no
    /// finished dead pug survives the tick.
    pub fn update_running(&mut self, input: Input, dt: TimeMs) -> (out: SoundEvents)
        requires
            old(self).wf(),
        ensures
            final(self).wf(),
            ({
                let t = spec_running_tick(*old(self), input, dt);
                &&& final(self).game_state == t.0
                &&& final(self).fox == t.1
                &&& final(self).pugs@ == t.2
                &&& final(self).bones@ == t.3
                &&& final(self).time == t.4
                &&& out == t.5
            }),
            final(self).level == old(self).level,
            final(self).mail == old(self).mail,
            final(self).mailbox == old(self).mailbox,
            old(self).fox.has_mail ==> final(self).fox.has_mail,
            forall|i: int|
                0 <= i < final(self).pugs@.len() ==> !pug_finished(#[trigger] final(self).pugs@[i]),
    {
        let ghost w0 = *self;
        let (dx, dy) = crate::geom::resolve_input(input.left, input.right, input.up, input.down);
        let fox_pos = self.fox.pos;
        let fox_has_bone = step_bones(
            &mut self.bones,
            &mut self.pugs,
            &self.level,
            fox_pos,
            dx,
            dy,
            dt,
        );
        let mut moved: bool = false;
        let mut lost: bool = false;
        if !fox_has_bone {
            match self.move_dest(dx, dy) {
                Some(dest) => {
                    lost = any_alive_at(&self.pugs, dest) && !input.lost_sound_playing;
                    moved = self.try_move_fox(dx, dy);
                },
                None => {},
            }
        }
        let ghost pugs2 = self.pugs@;
        let ghost fox1 = self.fox;
        let killed_fox = crate::pug_ai::step_pugs(
            &mut self.pugs,
            &self.level,
            self.fox.pos,
            moved,
            dt,
        );
        proof {
            assert(self.pugs@ =~= spec_step_all_pugs(pugs2, w0.level, fox1.pos, moved, dt));
            assert(killed_fox == spec_any_pug_kills(pugs2, w0.level, fox1.pos, moved, dt));
        }
        if killed_fox {
            self.fox.state = LiveState::Dead(0);
            self.game_state = GameState::GameOver;
        }
        crate::pug_ai::remove_finished_pugs(&mut self.pugs);
        let mut got: bool = false;
        if !self.fox.has_mail && self.fox.pos == self.mail.pos {
            self.fox.has_mail = true;
            got = true;
        }
        let mut won: bool = false;
        if self.fox.pos == self.mailbox.pos && self.fox.has_mail {
            self.game_state = GameState::Won;
            won = true;
        }
        self.time = if killed_fox {
            0
        } else {
            crate::entities::advance_timer(self.time, dt)
        };
        proof {
            let mapped = spec_step_all_pugs(pugs2, w0.level, fox1.pos, moved, dt);
            assert forall|i: int| 0 <= i < self.pugs@.len() implies pug_wf(
                #[trigger] self.pugs@[i],
            ) by {
                assert(mapped.contains(self.pugs@[i]));
                let j = choose|j: int| 0 <= j < mapped.len() && mapped[j] == self.pugs@[i];
                assert(pug_wf(mapped[j]));
            }
        }
        SoundEvents {
            fox_move: moved,
            bark: killed_fox,
            got_mail: got,
            won_level: won,
            lost_level: lost,
        }
    }

    /// Advances the game by one tick, dispatching on the lifecycle state.
    ///
    /// In the menus a confirm press moves the lifecycle along; while
    /// running, `update_running` does the work; after a loss or a win a
    /// confirm press re-enters the running state and asks the caller to
    /// load the appropriate level (the same one again after a loss, the
    /// successor after a win, or the start level — routing to the credits —
    /// when no successor is named).  A returned load request must be
    /// answered with `install_level` before the next tick.
    pub fn update(&mut self, input: Input, dt: TimeMs) -> (out: TickOutput)
        requires
            old(self).wf(),
        ensures
            final(self).wf(),
            match old(self).game_state {
                GameState::StartMenu => {
                    &&& *final(self) == (GameWorld {
                        game_state: if input.confirm {
                            GameState::Running
                        } else {
                            GameState::StartMenu
                        },
                        ..*old(self)
                    })
                    &&& out.sounds == SoundEvents::spec_silent()
                    &&& out.load is None
                },
                GameState::Credits => {
                    &&& *final(self) == (GameWorld {
                        game_state: if input.confirm {
                            GameState::StartMenu
                        } else {
                            GameState::Credits
                        },
                        ..*old(self)
                    })
                    &&& out.sounds == SoundEvents::spec_silent()
                    &&& out.load is None
                },
                GameState::Running => {
                    let t = spec_running_tick(*old(self), input, dt);
                    &&& final(self).game_state == t.0
                    &&& final(self).fox == t.1
                    &&& final(self).pugs@ == t.2
                    &&& final(self).bones@ == t.3
                    &&& final(self).time == t.4
                    &&& out.sounds == t.5
                    &&& out.load is None
                    &&& final(self).level == old(self).level
                    &&& final(self).mail == old(self).mail
                    &&& final(self).mailbox == old(self).mailbox
                },
                GameState::GameOver => {
                    &&& out.sounds == SoundEvents::spec_silent()
                    &&& if input.confirm {
                        &&& *final(self) == (GameWorld {
                            game_state: GameState::Running,
                            ..*old(self)
                        })
                        &&& out.load == Some(LoadRequest::Level(old(self).level.level_name))
                    } else {
                        &&& out.load is None
                        &&& match old(self).fox.state {
                            LiveState::Dead(t) => *final(self) == (GameWorld {
                                fox: (Fox {
                                    state: LiveState::Dead(
                                        if t + dt <= TimeMs::MAX {
                                            (t + dt) as TimeMs
                                        } else {
                                            TimeMs::MAX
                                        },
                                    ),
                                    ..old(self).fox
                                }),
                                ..*old(self)
                            }),
                            LiveState::Alive => *final(self) == *old(self),
                        }
                    }
                },
                GameState::Won => {
                    &&& out.sounds == SoundEvents::spec_silent()
                    &&& if input.confirm {
                        match old(self).level.next_level {
                            Some(n) => {
                                &&& *final(self) == (GameWorld {
                                    game_state: GameState::Running,
                                    ..*old(self)
                                })
                                &&& out.load == Some(LoadRequest::Level(n))
                            },
                            None => {
                                &&& *final(self) == (GameWorld {
                                    game_state: GameState::Credits,
                                    ..*old(self)
                                })
                                &&& out.load == Some(LoadRequest::StartLevel)
                            },
                        }
                    } else {
                        &&& *final(self) == *old(self)
                        &&& out.load is None
                    }
                },
            },
            old(self).fox.has_mail ==> final(self).fox.has_mail,
    {
        match self.game_state {
            GameState::StartMenu => {
                if input.confirm {
                    self.game_state = GameState::Running;
                }
                TickOutput { sounds: SoundEvents::silent(), load: None }
            },
            GameState::Credits => {
                if input.confirm {
                    self.game_state = GameState::StartMenu;
                }
                TickOutput { sounds: SoundEvents::silent(), load: None }
            },
            GameState::Running => {
                let sounds = self.update_running(input, dt);
                TickOutput { sounds, load: None }
            },
            GameState::GameOver => {
                if input.confirm {
                    self.game_state = GameState::Running;
                    let name = self.level.level_name.clone();
                    TickOutput {
                        sounds: SoundEvents::silent(),
                        load: Some(LoadRequest::Level(name)),
                    }
                } else {
                    if let LiveState::Dead(t) = self.fox.state {
                        self.fox.state = LiveState::Dead(crate::entities::advance_timer(t, dt));
                    }
                    TickOutput { sounds: SoundEvents::silent(), load: None }
                }
            },
            GameState::Won => {
                if input.confirm {
                    self.game_state = GameState::Running;
                    match &self.level.next_level {
                        Some(n) => {
                            let name = n.clone();
                            TickOutput {
                                sounds: SoundEvents::silent(),
                                load: Some(LoadRequest::Level(name)),
                            }
                        },
                        None => {
                            self.game_state = GameState::Credits;
                            TickOutput {
                                sounds: SoundEvents::silent(),
                                load: Some(LoadRequest::StartLevel),
                            }
                        },
                    }
                } else {
                    TickOutput { sounds: SoundEvents::silent(), load: None }
                }
            },
        }
    }

    /// Builds a fresh game world from a level blueprint, starting at the
    /// start menu.  Fails exactly when a required singleton object is
    /// missing, naming the first missing one.
    pub fn new(bp: LevelBlueprint) -> (r: Result<GameWorld, LoadError>)
        requires
            bp.wf(),
        ensures
            r is Ok <==> (spec_load_fox(bp) is Some && spec_load_mailbox(bp) is Some
                && spec_load_mail(bp) is Some),
            match r {
                Ok(w) => {
                    &&& w.wf()
                    &&& w.game_state == GameState::StartMenu
                    &&& Some(w.fox) == spec_load_fox(bp)
                    &&& Some(w.mailbox) == spec_load_mailbox(bp)
                    &&& Some(w.mail) == spec_load_mail(bp)
                    &&& w.level == spec_level_of(bp)
                    &&& w.pugs@ == spec_load_pugs(bp, bp.objects@)
                    &&& w.bones@ == spec_load_bones(bp, bp.objects@)
                    &&& w.time == 0
                },
                Err(e) => {
                    if spec_load_fox(bp) is None {
                        e == LoadError::MissingFox
                    } else if spec_load_mailbox(bp) is None {
                        e == LoadError::MissingMailbox
                    } else {
                        e == LoadError::MissingMail
                    }
                },
            },
    {
        match load_level(bp) {
            Ok((level, fox, mailbox, mail, pugs, bones)) => Ok(
                GameWorld {
                    game_state: GameState::StartMenu,
                    fox,
                    mailbox,
                    level,
                    mail,
                    pugs,
                    bones,
                    time: 0,
                },
            ),
            Err(e) => Err(e),
        }
    }

    /// Replaces every entity of the world with the ones a blueprint builds,
    /// atomically: on failure the world is left exactly as it was.  The
    /// lifecycle state is kept; the level time restarts.
    pub fn install_level(&mut self, bp: LevelBlueprint) -> (r: Result<(), LoadError>)
        requires
            old(self).wf(),
            bp.wf(),
        ensures
            final(self).wf(),
            r is Ok <==> (spec_load_fox(bp) is Some && spec_load_mailbox(bp) is Some
                && spec_load_mail(bp) is Some),
            match r {
                Ok(u) => {
                    &&& final(self).game_state == old(self).game_state
                    &&& Some(final(self).fox) == spec_load_fox(bp)
                    &&& Some(final(self).mailbox) == spec_load_mailbox(bp)
                    &&& Some(final(self).mail) == spec_load_mail(bp)
                    &&& final(self).level == spec_level_of(bp)
                    &&& final(self).pugs@ == spec_load_pugs(bp, bp.objects@)
                    &&& final(self).bones@ == spec_load_bones(bp, bp.objects@)
                    &&& final(self).time == 0
                },
                Err(e) => {
                    &&& *final(self) == *old(self)
                    &&& if spec_load_fox(bp) is None {
                        e == LoadError::MissingFox
                    } else if spec_load_mailbox(bp) is None {
                        e == LoadError::MissingMailbox
                    } else {
                        e == LoadError::MissingMail
                    }
                },
            },
    {
        match load_level(bp) {
            Ok((level, fox, mailbox, mail, pugs, bones)) => {
                self.fox = fox;
                self.mailbox = mailbox;
                self.level = level;
                self.mail = mail;
                self.pugs = pugs;
                self.bones = bones;
                self.time = 0;
                Ok(())
            },
            Err(e) => Err(e),
        }
    }
}

} // verus!

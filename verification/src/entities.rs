//! Plain data records for the simulation's entities.  All behavior lives in
//! the world update and the pug state machine; these types only carry state.

use vstd::prelude::*;

use crate::geom::{cell, dir_toward, is_cardinal_step, Direction, Pos};

verus! {

/// Time is measured in integer milliseconds.
pub type TimeMs = u32;

/// A dead pug is removed from the world once its dead-timer reaches this.
pub const DEAD_REMOVAL_MS: TimeMs = 1000;

/// A thrown bone's disappearing countdown starts at this value.
pub const DISAPPEARING_TIME_MS: TimeMs = 500;

/// Whether an entity is alive, or dead with the time it has been dead for.
#[derive(Clone, Copy, Debug, PartialEq, Eq, Structural)]
pub enum LiveState {
    Alive,
    Dead(TimeMs),
}

/// The player-controlled fox.
#[derive(Clone, Copy, Debug, PartialEq, Eq, Structural)]
pub struct Fox {
    pub state: LiveState,
    pub pos: Pos,
    pub dir: Direction,
    /// Once the fox picks the mail up this stays true for the rest of the
    /// level's lifetime.
    pub has_mail: bool,
}

impl Fox {
    pub fn new(x: u32, y: u32, dir: Direction) -> (r: Fox)
        ensures
            r == (Fox { state: LiveState::Alive, pos: Pos { x, y }, dir, has_mail: false }),
    {
        Fox { state: LiveState::Alive, pos: Pos { x, y }, dir, has_mail: false }
    }
}

/// The guard-AI state of a pug.
#[derive(Clone, Copy, Debug, PartialEq, Eq, Structural)]
pub enum PugState {
    /// Stationary, watching the single tile in front of it.
    Guarding,
    /// Just noticed a bone land at the carried position.
    Suprised(Pos),
    /// Moving toward the first position, ultimately investigating the bone
    /// at the second.
    Alerted(Pos, Pos),
}

/// A stationary guard.
#[derive(Clone, Copy, Debug, PartialEq, Eq, Structural)]
pub struct Pug {
    pub live_state: LiveState,
    pub pos: Pos,
    pub dir: Direction,
    pub state: PugState,
}

/// Every alerted pug chases a target one cardinal step away, and that target
/// is the investigated bone or lies one cardinal step from it.  Every
/// reachable pug satisfies this; it is what lets an alerted pug re-face its
/// target.
pub open spec fn pug_wf(p: Pug) -> bool {
    p.live_state is Alive ==> match p.state {
        PugState::Alerted(target, bone) => is_cardinal_step(cell(p.pos), cell(target)) && (target
            == bone || is_cardinal_step(cell(target), cell(bone))),
        _ => true,
    }
}

impl Pug {
    pub fn new(x: u32, y: u32, dir: Direction) -> (r: Pug)
        ensures
            r == (Pug {
                live_state: LiveState::Alive,
                pos: Pos { x, y },
                dir,
                state: PugState::Guarding,
            }),
            pug_wf(r),
    {
        Pug { live_state: LiveState::Alive, pos: Pos { x, y }, dir, state: PugState::Guarding }
    }

    /// Teleports the pug onto the attacked position.
    pub fn attack(&mut self, fox_pos: Pos)
        ensures
            *final(self) == (Pug { pos: fox_pos, ..*old(self) }),
    {
        self.pos = fox_pos;
    }

    pub fn set_guarding(&mut self)
        ensures
            *final(self) == (Pug { state: PugState::Guarding, ..*old(self) }),
    {
        self.state = PugState::Guarding;
    }

    pub fn set_alerted(&mut self, next_pos: Pos, bone_pos: Pos)
        ensures
            *final(self) == (Pug { state: PugState::Alerted(next_pos, bone_pos), ..*old(self) }),
    {
        self.state = PugState::Alerted(next_pos, bone_pos);
    }

    pub fn set_suprised(&mut self, bone_pos: Pos)
        ensures
            *final(self) == (Pug { state: PugState::Suprised(bone_pos), ..*old(self) }),
    {
        self.state = PugState::Suprised(bone_pos);
    }

    /// The single tile this pug watches: its position moved one step along
    /// its facing, undefined when that leaves the coordinate range.
    pub open spec fn spec_watched_pos(self) -> Option<Pos> {
        crate::geom::spec_offset(self.pos, crate::geom::dir_vec(self.dir).0, crate::geom::dir_vec(self.dir).1)
    }

    pub fn get_watched_pos(&self) -> (r: Option<Pos>)
        ensures
            r == self.spec_watched_pos(),
    {
        let (dx, dy) = self.dir.to_vector2();
        crate::geom::offset_pos(self.pos, dx, dy)
    }

    /// Turns the pug to face a cardinally adjacent cell.
    pub fn set_facing(&mut self, new_pos: Pos)
        requires
            is_cardinal_step(cell(old(self).pos), cell(new_pos)),
        ensures
            *final(self) == (Pug {
                dir: dir_toward(cell(old(self).pos), cell(new_pos)),
                ..*old(self)
            }),
    {
        if new_pos.y < self.pos.y {
            self.dir = Direction::North;
        } else if new_pos.y > self.pos.y {
            self.dir = Direction::South;
        } else if new_pos.x > self.pos.x {
            self.dir = Direction::East;
        } else {
            self.dir = Direction::West;
        }
    }
}

/// The delivery target.
#[derive(Clone, Copy, Debug, PartialEq, Eq, Structural)]
pub struct Mailbox {
    pub pos: Pos,
}

impl Mailbox {
    pub fn new(x: u32, y: u32) -> (r: Mailbox)
        ensures
            r == (Mailbox { pos: Pos { x, y } }),
    {
        Mailbox { pos: Pos { x, y } }
    }
}

/// The mail the fox must pick up.
#[derive(Clone, Copy, Debug, PartialEq, Eq, Structural)]
pub struct Mail {
    pub pos: Pos,
}

impl Mail {
    pub fn new(x: u32, y: u32) -> (r: Mail)
        ensures
            r == (Mail { pos: Pos { x, y } }),
    {
        Mail { pos: Pos { x, y } }
    }
}

/// A throwable bone that distracts pugs.  A used bone is never selected.
#[derive(Clone, Copy, Debug, PartialEq, Eq, Structural)]
pub struct Bone {
    pub pos: Pos,
    /// The fox stands on the bone, aiming a throw.
    pub is_selected: bool,
    /// The bone has been thrown.
    pub is_used: bool,
    pub is_visible: bool,
    /// Countdown after a throw; while positive the bone blinks, at zero it
    /// stays invisible.
    pub disappearing_time: TimeMs,
}

/// A bone that has been thrown is never selected again.  Every reachable
/// bone satisfies this.
pub open spec fn bone_wf(b: Bone) -> bool {
    !(b.is_used && b.is_selected)
}

impl Bone {
    pub fn new(x: u32, y: u32) -> (r: Bone)
        ensures
            r == (Bone {
                pos: Pos { x, y },
                is_selected: false,
                is_used: false,
                is_visible: true,
                disappearing_time: 0,
            }),
            bone_wf(r),
    {
        Bone {
            pos: Pos { x, y },
            is_selected: false,
            is_used: false,
            is_visible: true,
            disappearing_time: 0,
        }
    }

    /// The existing tiles a selected bone may be thrown onto: the cardinal
    /// neighbors of its cell that have a tile.
    pub fn get_throwable_positions(&self, level: &crate::level::Level) -> (r: Vec<Pos>)
        requires
            level.wf(),
        ensures
            r@ == level.spec_adjacent_four(self.pos),
    {
        level.get_adjacent_four(self.pos)
    }

    pub fn is_selected(&self) -> (r: bool)
        ensures
            r == self.is_selected,
    {
        self.is_selected
    }

    pub fn is_used(&self) -> (r: bool)
        ensures
            r == self.is_used,
    {
        self.is_used
    }

    pub fn is_visible(&self) -> (r: bool)
        ensures
            r == self.is_visible,
    {
        self.is_visible
    }
}

/// Adds elapsed time to a timer, holding at the largest representable value
/// instead of wrapping.
pub fn advance_timer(t: TimeMs, dt: TimeMs) -> (r: TimeMs)
    ensures
        r == if t + dt <= TimeMs::MAX {
            (t + dt) as TimeMs
        } else {
            TimeMs::MAX
        },
{
    if t > TimeMs::MAX - dt {
        TimeMs::MAX
    } else {
        t + dt
    }
}

} // verus!

//! Level blueprints: the plain, read-only description of a level that an
//! external loader produces, and the functions that build a level's entities
//! from one.
//!
//! A blueprint carries grid dimensions and per-cell tile ids, and typed
//! point objects with pixel coordinates; grid positions are derived from the
//! pixel coordinates and the tile size.

use vstd::prelude::*;

use crate::entities::{Bone, Fox, LiveState, Mail, Mailbox, Pug, PugState};
use crate::geom::{spec_dir_from_name, str_eq, Direction, Pos};
use crate::level::Level;

verus! {

/// One typed point object of a level blueprint.
pub struct BlueprintObject {
    /// The object's type tag: one of `sneky_fox`, `mailbox`, `mail`, `pug`,
    /// `bone`.
    pub kind: String,
    /// Pixel coordinates, converted to a grid position via the tile size.
    pub px: u32,
    pub py: u32,
    /// The optional orientation property; unrecognized or absent values
    /// resolve to a per-object-type default direction.
    pub facing: Option<String>,
}

/// A level description as handed over by the external level loader.
pub struct LevelBlueprint {
    /// The name the level is known under, used to reload it.
    pub name: String,
    pub width: u32,
    pub height: u32,
    /// Pixel size of one tile; object x coordinates are scaled by half the
    /// tile width, y coordinates by the tile height.
    pub tile_width: u32,
    pub tile_height: u32,
    /// Row-major tile ids, one per cell.
    pub tiles: Vec<u32>,
    pub objects: Vec<BlueprintObject>,
    /// The successor level's name, when the level has one.
    pub next_level: Option<String>,
}

impl LevelBlueprint {
    /// The geometry a blueprint must satisfy before entities can be derived
    /// from it: one tile id per cell and a tile size the position scaling
    /// can divide by.
    pub open spec fn wf(&self) -> bool {
        &&& self.tiles@.len() == self.width * self.height
        &&& self.tile_width >= 2
        &&& self.tile_height >= 1
    }
}

/// Loading fails when a required singleton object is missing from the
/// blueprint.
#[derive(Clone, Copy, Debug, PartialEq, Eq, Structural)]
pub enum LoadError {
    MissingFox,
    MissingMailbox,
    MissingMail,
}

/// The grid cell an object's pixel coordinates place it on.
pub open spec fn spec_grid_pos(bp: LevelBlueprint, o: BlueprintObject) -> (int, int) {
    (o.px as int / (bp.tile_width as int / 2), o.py as int / (bp.tile_height as int))
}

/// The direction an object's orientation property resolves to, with
/// `default` for an absent or unrecognized property.
pub open spec fn spec_obj_dir(o: BlueprintObject, default: Direction) -> Direction {
    match o.facing {
        Some(s) => match spec_dir_from_name(s@) {
            Some(d) => d,
            None => default,
        },
        None => default,
    }
}

/// The first object of the given kind, if any.
pub open spec fn spec_find_first(objects: Seq<BlueprintObject>, kind: Seq<char>) -> Option<
    BlueprintObject,
>
    decreases objects.len(),
{
    if objects.len() == 0 {
        None
    } else if objects[0].kind@ == kind {
        Some(objects[0])
    } else {
        spec_find_first(objects.drop_first(), kind)
    }
}

/// Finds the index of the first object with the given type tag.
fn find_object(objects: &Vec<BlueprintObject>, kind: &str) -> (r: Option<usize>)
    ensures
        match r {
            Some(i) => i < objects@.len() && spec_find_first(objects@, kind@) == Some(
                objects@[i as int],
            ),
            None => spec_find_first(objects@, kind@) is None,
        },
{
    let mut k: usize = 0;
    proof {
        assert(objects@.skip(0) =~= objects@);
    }
    while k < objects.len()
        invariant
            k <= objects@.len(),
            spec_find_first(objects@, kind@) == spec_find_first(objects@.skip(k as int), kind@),
        decreases objects@.len() - k,
    {
        proof {
            assert(objects@.skip(k as int)[0] == objects@[k as int]);
        }
        if str_eq(objects[k].kind.as_str(), kind) {
            return Some(k);
        }
        proof {
            assert(objects@.skip(k as int).drop_first() =~= objects@.skip(k as int + 1));
        }
        k += 1;
    }
    None
}

/// Resolves an object's orientation property, falling back to `default`.
fn obj_dir(o: &BlueprintObject, default: Direction) -> (r: Direction)
    ensures
        r == spec_obj_dir(*o, default),
{
    match &o.facing {
        Some(s) => match Direction::from_str(s.as_str()) {
            Some(d) => d,
            None => default,
        },
        None => default,
    }
}

/// The fox the blueprint describes, if it describes one.
pub open spec fn spec_load_fox(bp: LevelBlueprint) -> Option<Fox> {
    match spec_find_first(bp.objects@, "sneky_fox"@) {
        None => None,
        Some(o) => Some(
            Fox {
                state: LiveState::Alive,
                pos: (Pos {
                    x: spec_grid_pos(bp, o).0 as u32,
                    y: spec_grid_pos(bp, o).1 as u32,
                }),
                dir: spec_obj_dir(o, Direction::North),
                has_mail: false,
            },
        ),
    }
}

pub open spec fn spec_load_mailbox(bp: LevelBlueprint) -> Option<Mailbox> {
    match spec_find_first(bp.objects@, "mailbox"@) {
        None => None,
        Some(o) => Some(
            Mailbox {
                pos: (Pos {
                    x: spec_grid_pos(bp, o).0 as u32,
                    y: spec_grid_pos(bp, o).1 as u32,
                }),
            },
        ),
    }
}

pub open spec fn spec_load_mail(bp: LevelBlueprint) -> Option<Mail> {
    match spec_find_first(bp.objects@, "mail"@) {
        None => None,
        Some(o) => Some(
            Mail {
                pos: (Pos {
                    x: spec_grid_pos(bp, o).0 as u32,
                    y: spec_grid_pos(bp, o).1 as u32,
                }),
            },
        ),
    }
}

/// Converts an object's pixel coordinates to a grid position.
fn grid_pos(bp: &LevelBlueprint, px: u32, py: u32) -> (r: (u32, u32))
    requires
        bp.wf(),
    ensures
        r.0 as int == px as int / (bp.tile_width as int / 2),
        r.1 as int == py as int / (bp.tile_height as int),
{
    (px / (bp.tile_width / 2), py / bp.tile_height)
}

/// Loads the fox from the blueprint, facing north unless the blueprint says
/// otherwise.
pub fn load_fox(bp: &LevelBlueprint) -> (r: Option<Fox>)
    requires
        bp.wf(),
    ensures
        r == spec_load_fox(*bp),
{
    match find_object(&bp.objects, "sneky_fox") {
        None => None,
        Some(i) => {
            let (x, y) = grid_pos(bp, bp.objects[i].px, bp.objects[i].py);
            let dir = obj_dir(&bp.objects[i], Direction::North);
            Some(Fox::new(x, y, dir))
        },
    }
}

pub fn load_mailbox(bp: &LevelBlueprint) -> (r: Option<Mailbox>)
    requires
        bp.wf(),
    ensures
        r == spec_load_mailbox(*bp),
{
    match find_object(&bp.objects, "mailbox") {
        None => None,
        Some(i) => {
            let (x, y) = grid_pos(bp, bp.objects[i].px, bp.objects[i].py);
            Some(Mailbox::new(x, y))
        },
    }
}

pub fn load_mail(bp: &LevelBlueprint) -> (r: Option<Mail>)
    requires
        bp.wf(),
    ensures
        r == spec_load_mail(*bp),
{
    match find_object(&bp.objects, "mail") {
        None => None,
        Some(i) => {
            let (x, y) = grid_pos(bp, bp.objects[i].px, bp.objects[i].py);
            Some(Mail::new(x, y))
        },
    }
}

/// The pugs of the first `objects.len()` blueprint objects, in order, facing
/// south unless the blueprint says otherwise.
pub open spec fn spec_load_pugs(bp: LevelBlueprint, objects: Seq<BlueprintObject>) -> Seq<Pug>
    decreases objects.len(),
{
    if objects.len() == 0 {
        Seq::empty()
    } else {
        let rest = spec_load_pugs(bp, objects.drop_last());
        let o = objects.last();
        if o.kind@ == "pug"@ {
            rest.push(
                Pug {
                    live_state: LiveState::Alive,
                    pos: (Pos {
                        x: spec_grid_pos(bp, o).0 as u32,
                        y: spec_grid_pos(bp, o).1 as u32,
                    }),
                    dir: spec_obj_dir(o, Direction::South),
                    state: PugState::Guarding,
                },
            )
        } else {
            rest
        }
    }
}

pub fn load_pugs(bp: &LevelBlueprint) -> (r: Vec<Pug>)
    requires
        bp.wf(),
    ensures
        r@ == spec_load_pugs(*bp, bp.objects@),
        forall|i: int| 0 <= i < r@.len() ==> crate::entities::pug_wf(#[trigger] r@[i]),
{
    let mut out: Vec<Pug> = Vec::new();
    let mut i: usize = 0;
    proof {
        assert(bp.objects@.subrange(0, 0) =~= Seq::<BlueprintObject>::empty());
    }
    while i < bp.objects.len()
        invariant
            bp.wf(),
            i <= bp.objects@.len(),
            out@ == spec_load_pugs(*bp, bp.objects@.subrange(0, i as int)),
            forall|j: int| 0 <= j < out@.len() ==> crate::entities::pug_wf(#[trigger] out@[j]),
        decreases bp.objects@.len() - i,
    {
        proof {
            let t2 = bp.objects@.subrange(0, i as int + 1);
            assert(t2.drop_last() =~= bp.objects@.subrange(0, i as int));
            assert(t2.last() == bp.objects@[i as int]);
        }
        if str_eq(bp.objects[i].kind.as_str(), "pug") {
            let (x, y) = grid_pos(bp, bp.objects[i].px, bp.objects[i].py);
            let dir = obj_dir(&bp.objects[i], Direction::South);
            out.push(Pug::new(x, y, dir));
        }
        i += 1;
    }
    proof {
        assert(bp.objects@.subrange(0, bp.objects@.len() as int) =~= bp.objects@);
    }
    out
}

/// The bones of the first `objects.len()` blueprint objects, in order.
pub open spec fn spec_load_bones(bp: LevelBlueprint, objects: Seq<BlueprintObject>) -> Seq<Bone>
    decreases objects.len(),
{
    if objects.len() == 0 {
        Seq::empty()
    } else {
        let rest = spec_load_bones(bp, objects.drop_last());
        let o = objects.last();
        if o.kind@ == "bone"@ {
            rest.push(
                Bone {
                    pos: (Pos {
                        x: spec_grid_pos(bp, o).0 as u32,
                        y: spec_grid_pos(bp, o).1 as u32,
                    }),
                    is_selected: false,
                    is_used: false,
                    is_visible: true,
                    disappearing_time: 0,
                },
            )
        } else {
            rest
        }
    }
}

pub fn load_bones(bp: &LevelBlueprint) -> (r: Vec<Bone>)
    requires
        bp.wf(),
    ensures
        r@ == spec_load_bones(*bp, bp.objects@),
        forall|i: int| 0 <= i < r@.len() ==> crate::entities::bone_wf(#[trigger] r@[i]),
{
    let mut out: Vec<Bone> = Vec::new();
    let mut i: usize = 0;
    proof {
        assert(bp.objects@.subrange(0, 0) =~= Seq::<BlueprintObject>::empty());
    }
    while i < bp.objects.len()
        invariant
            bp.wf(),
            i <= bp.objects@.len(),
            out@ == spec_load_bones(*bp, bp.objects@.subrange(0, i as int)),
            forall|j: int| 0 <= j < out@.len() ==> crate::entities::bone_wf(#[trigger] out@[j]),
        decreases bp.objects@.len() - i,
    {
        proof {
            let t2 = bp.objects@.subrange(0, i as int + 1);
            assert(t2.drop_last() =~= bp.objects@.subrange(0, i as int));
            assert(t2.last() == bp.objects@[i as int]);
        }
        if str_eq(bp.objects[i].kind.as_str(), "bone") {
            let (x, y) = grid_pos(bp, bp.objects[i].px, bp.objects[i].py);
            out.push(Bone::new(x, y));
        }
        i += 1;
    }
    proof {
        assert(bp.objects@.subrange(0, bp.objects@.len() as int) =~= bp.objects@);
    }
    out
}

/// The level a blueprint builds: the grid under the blueprint's name.
pub open spec fn spec_level_of(bp: LevelBlueprint) -> Level {
    Level {
        width: bp.width,
        height: bp.height,
        tiles: bp.tiles,
        level_name: bp.name,
        next_level: bp.next_level,
    }
}

/// Builds every part of a level from its blueprint.
///
/// Succeeds exactly when the blueprint holds each required singleton object
/// (`sneky_fox`, `mailbox`, `mail`); otherwise reports the first missing
/// one, in that order.
pub fn load_level(bp: LevelBlueprint) -> (r: Result<
    (Level, Fox, Mailbox, Mail, Vec<Pug>, Vec<Bone>),
    LoadError,
>)
    requires
        bp.wf(),
    ensures
        r is Ok <==> (spec_load_fox(bp) is Some && spec_load_mailbox(bp) is Some
            && spec_load_mail(bp) is Some),
        match r {
            Ok(parts) => {
                &&& parts.0 == spec_level_of(bp)
                &&& parts.0.wf()
                &&& Some(parts.1) == spec_load_fox(bp)
                &&& Some(parts.2) == spec_load_mailbox(bp)
                &&& Some(parts.3) == spec_load_mail(bp)
                &&& parts.4@ == spec_load_pugs(bp, bp.objects@)
                &&& forall|i: int|
                    0 <= i < parts.4@.len() ==> crate::entities::pug_wf(#[trigger] parts.4@[i])
                &&& parts.5@ == spec_load_bones(bp, bp.objects@)
                &&& forall|i: int|
                    0 <= i < parts.5@.len() ==> crate::entities::bone_wf(#[trigger] parts.5@[i])
            },
            Err(e) => {
                if spec_load_fox(bp) is None {
                    e == LoadError::MissingFox
                } else if spec_load_mailbox(bp) is None {
                    e == LoadError::MissingMailbox
                } else {
                    e == LoadError::MissingMail
                }
            },
        },
{
    let fox = match load_fox(&bp) {
        Some(f) => f,
        None => {
            return Err(LoadError::MissingFox);
        },
    };
    let mailbox = match load_mailbox(&bp) {
        Some(m) => m,
        None => {
            return Err(LoadError::MissingMailbox);
        },
    };
    let mail = match load_mail(&bp) {
        Some(m) => m,
        None => {
            return Err(LoadError::MissingMail);
        },
    };
    let pugs = load_pugs(&bp);
    let bones = load_bones(&bp);
    let level = Level::new(bp.width, bp.height, bp.tiles, bp.name, bp.next_level);
    Ok((level, fox, mailbox, mail, pugs, bones))
}

} // verus!

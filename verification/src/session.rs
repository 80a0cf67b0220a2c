//! Ephemeral per-session state.
//!
//! Nothing here is ever written to disk. A hard refresh calls
//! [`SessionState::flush`] to wipe it all, subject to a save-or-discard
//! prompt if [`SessionState::has_pending_changes`] is true.

use vstd::prelude::*;
use crate::pathmap::{PathMap, PathSet};
use crate::settings::SortOrder;

verus! {

/// Net clockwise rotation applied to an image for the current session only,
/// stored as a cumulative quarter-turn.
#[derive(Debug, Clone, Copy, PartialEq, Eq, Structural)]
pub enum Rotation {
    Identity,
    Cw90,
    Cw180,
    Cw270,
}

/// The number of clockwise quarter-turns a rotation stands for.
pub open spec fn quarter_turns(r: Rotation) -> nat {
    match r {
        Rotation::Identity => 0,
        Rotation::Cw90 => 1,
        Rotation::Cw180 => 2,
        Rotation::Cw270 => 3,
    }
}

/// The rotation of `q` clockwise quarter-turns, taken modulo a full turn.
pub open spec fn rotation_of_turns(q: nat) -> Rotation {
    let m = q % 4;
    if m == 0 {
        Rotation::Identity
    } else if m == 1 {
        Rotation::Cw90
    } else if m == 2 {
        Rotation::Cw180
    } else {
        Rotation::Cw270
    }
}

/// One further clockwise quarter-turn.
pub open spec fn turned_cw(r: Rotation) -> Rotation {
    rotation_of_turns(quarter_turns(r) + 1)
}

/// One counter-clockwise quarter-turn.
pub open spec fn turned_ccw(r: Rotation) -> Rotation {
    rotation_of_turns(quarter_turns(r) + 3)
}

impl Default for Rotation {
    fn default() -> (r: Self)
        ensures
            r == Rotation::Identity,
    {
        Rotation::Identity
    }
}

impl Rotation {
    pub fn rotate_cw(self) -> (r: Rotation)
        ensures
            r == turned_cw(self),
    {
        match self {
            Rotation::Identity => Rotation::Cw90,
            Rotation::Cw90 => Rotation::Cw180,
            Rotation::Cw180 => Rotation::Cw270,
            Rotation::Cw270 => Rotation::Identity,
        }
    }

    pub fn rotate_ccw(self) -> (r: Rotation)
        ensures
            r == turned_ccw(self),
    {
        match self {
            Rotation::Identity => Rotation::Cw270,
            Rotation::Cw90 => Rotation::Identity,
            Rotation::Cw180 => Rotation::Cw90,
            Rotation::Cw270 => Rotation::Cw180,
        }
    }

    pub fn is_identity(self) -> (r: bool)
        ensures
            r == (self == Rotation::Identity),
    {
        match self {
            Rotation::Identity => true,
            _ => false,
        }
    }

    /// Net clockwise degrees: 0, 90, 180, or 270.
    pub fn degrees(self) -> (r: u32)
        ensures
            r == 90 * quarter_turns(self),
    {
        match self {
            Rotation::Identity => 0,
            Rotation::Cw90 => 90,
            Rotation::Cw180 => 180,
            Rotation::Cw270 => 270,
        }
    }

    pub fn as_u8(self) -> (r: u8)
        ensures
            r == quarter_turns(self),
    {
        match self {
            Rotation::Identity => 0,
            Rotation::Cw90 => 1,
            Rotation::Cw180 => 2,
            Rotation::Cw270 => 3,
        }
    }

    pub fn from_u8(val: u8) -> (r: Rotation)
        ensures
            r == rotation_of_turns(val as nat),
    {
        let m = val % 4;
        if m == 0 {
            Rotation::Identity
        } else if m == 1 {
            Rotation::Cw90
        } else if m == 2 {
            Rotation::Cw180
        } else {
            Rotation::Cw270
        }
    }
}

/// A clockwise and a counter-clockwise quarter-turn cancel, in either order.
pub proof fn lemma_cw_ccw_cancel(r: Rotation)
    ensures
        turned_ccw(turned_cw(r)) == r,
        turned_cw(turned_ccw(r)) == r,
{
}

/// Four clockwise quarter-turns return any rotation to itself.
pub proof fn lemma_four_cw_steps_are_identity(r: Rotation)
    ensures
        turned_cw(turned_cw(turned_cw(turned_cw(r)))) == r,
{
}

/// The number form of a rotation reads back as the same rotation, and a
/// number reads back as itself modulo a full turn.
pub proof fn lemma_u8_round_trip(r: Rotation, v: u8)
    ensures
        rotation_of_turns(quarter_turns(r)) == r,
        quarter_turns(rotation_of_turns(v as nat)) == v % 4,
{
}

/// Comparison operator for a rating predicate.
#[derive(Debug, Clone, Copy, PartialEq, Eq, Structural)]
pub enum RatingFilterOp {
    AtLeast,
    AtMost,
    Exactly,
}

/// A rating predicate used to filter the directory listing for this session.
#[derive(Debug, Clone, Copy, PartialEq, Eq, Structural)]
pub struct RatingFilter {
    pub op: RatingFilterOp,
    pub value: u8,
}

/// `true` if `rating` satisfies `f`; an unrated image never does.
pub open spec fn filter_accepts(f: RatingFilter, rating: Option<u8>) -> bool {
    match rating {
        None => false,
        Some(r) => match f.op {
            RatingFilterOp::AtLeast => r >= f.value,
            RatingFilterOp::AtMost => r <= f.value,
            RatingFilterOp::Exactly => r == f.value,
        },
    }
}

impl RatingFilter {
    /// Returns `true` if `rating` satisfies this predicate.
    pub fn matches(self, rating: Option<u8>) -> (r: bool)
        ensures
            r == filter_accepts(self, rating),
    {
        match rating {
            None => false,
            Some(r) => match self.op {
                RatingFilterOp::AtLeast => r >= self.value,
                RatingFilterOp::AtMost => r <= self.value,
                RatingFilterOp::Exactly => r == self.value,
            },
        }
    }
}

/// The rotation a map of pending rotations holds for `path`.
pub open spec fn rotation_in(m: Map<Seq<char>, Rotation>, path: Seq<char>) -> Rotation {
    if m.dom().contains(path) {
        m[path]
    } else {
        Rotation::Identity
    }
}

/// Pending rotations after recording `r` for `path`: the identity removes
/// the entry, any other rotation is stored.
pub open spec fn with_rotation(m: Map<Seq<char>, Rotation>, path: Seq<char>, r: Rotation) -> Map<Seq<char>, Rotation> {
    if r == Rotation::Identity {
        m.remove(path)
    } else {
        m.insert(path, r)
    }
}

/// Turning a path clockwise and then counter-clockwise leaves the pending
/// rotations as they were, for maps that hold no identity rotation.
pub proof fn lemma_session_cw_then_ccw_restores(m: Map<Seq<char>, Rotation>, path: Seq<char>)
    requires
        forall|k: Seq<char>| #[trigger] m.dom().contains(k) ==> m[k] != Rotation::Identity,
    ensures
        ({
            let m1 = with_rotation(m, path, turned_cw(rotation_in(m, path)));
            with_rotation(m1, path, turned_ccw(rotation_in(m1, path))) == m
        }),
{
    let m1 = with_rotation(m, path, turned_cw(rotation_in(m, path)));
    let m2 = with_rotation(m1, path, turned_ccw(rotation_in(m1, path)));
    lemma_cw_ccw_cancel(rotation_in(m, path));
    assert(m2 =~= m);
}

/// All state that lives for exactly one run of the application.
///
/// `C` is the crop rectangle the session stores per path; the library only
/// keeps and hands back such values.
pub struct SessionState<C> {
    pub pending_rotations: PathMap<Rotation>,
    pub pending_crops: PathMap<C>,
    pub ignored_images: PathSet,
    pub rating_filter: Option<RatingFilter>,
    pub sort_order: SortOrder,
}

impl<C> SessionState<C> {
    /// The collections are well formed, and no path is stored with the
    /// identity rotation.
    pub open spec fn wf(&self) -> bool {
        &&& self.pending_rotations.wf()
        &&& self.pending_crops.wf()
        &&& self.ignored_images.wf()
        &&& forall|k: Seq<char>| #[trigger] self.pending_rotations@.dom().contains(k)
            ==> self.pending_rotations@[k] != Rotation::Identity
    }

    /// The rotation the session holds for a path.
    pub open spec fn rotation_of(&self, path: Seq<char>) -> Rotation {
        rotation_in(self.pending_rotations@, path)
    }

    pub fn new(default_sort: SortOrder) -> (r: Self)
        ensures
            r.wf(),
            r.pending_rotations@ == Map::<Seq<char>, Rotation>::empty(),
            r.pending_crops@ == Map::<Seq<char>, C>::empty(),
            r.ignored_images@ == Set::<Seq<char>>::empty(),
            r.rating_filter is None,
            r.sort_order == default_sort,
    {
        SessionState {
            pending_rotations: PathMap::new(),
            pending_crops: PathMap::new(),
            ignored_images: PathSet::new(),
            rating_filter: None,
            sort_order: default_sort,
        }
    }

    /// `true` if a save-or-discard prompt should be shown before closing:
    /// rotations are persisted immediately, so only pending crops count.
    pub fn has_pending_changes(&self) -> (r: bool)
        requires
            self.wf(),
        ensures
            r == (self.pending_crops@ != Map::<Seq<char>, C>::empty()),
    {
        !self.pending_crops.is_empty()
    }

    /// Clear all session state (hard refresh); the sort order stays.
    pub fn flush(&mut self)
        requires
            old(self).wf(),
        ensures
            final(self).wf(),
            final(self).pending_rotations@ == Map::<Seq<char>, Rotation>::empty(),
            final(self).pending_crops@ == Map::<Seq<char>, C>::empty(),
            final(self).ignored_images@ == Set::<Seq<char>>::empty(),
            final(self).rating_filter is None,
            final(self).sort_order == old(self).sort_order,
    {
        self.pending_rotations.clear();
        self.pending_crops.clear();
        self.ignored_images.clear();
        self.rating_filter = None;
    }

    pub fn rotate_cw(&mut self, path: String) -> (r: Rotation)
        requires
            old(self).wf(),
        ensures
            final(self).wf(),
            r == turned_cw(old(self).rotation_of(path@)),
            final(self).rotation_of(path@) == r,
            forall|p: Seq<char>| p != path@ ==> final(self).rotation_of(p) == old(self).rotation_of(p),
            final(self).pending_rotations@ == with_rotation(old(self).pending_rotations@, path@, r),
            final(self).pending_crops@ == old(self).pending_crops@,
            final(self).ignored_images@ == old(self).ignored_images@,
            final(self).rating_filter == old(self).rating_filter,
            final(self).sort_order == old(self).sort_order,
    {
        let next = self.rotation_for(&path).rotate_cw();
        self.set_rotation(path, next);
        next
    }

    pub fn rotate_ccw(&mut self, path: String) -> (r: Rotation)
        requires
            old(self).wf(),
        ensures
            final(self).wf(),
            r == turned_ccw(old(self).rotation_of(path@)),
            final(self).rotation_of(path@) == r,
            forall|p: Seq<char>| p != path@ ==> final(self).rotation_of(p) == old(self).rotation_of(p),
            final(self).pending_rotations@ == with_rotation(old(self).pending_rotations@, path@, r),
            final(self).pending_crops@ == old(self).pending_crops@,
            final(self).ignored_images@ == old(self).ignored_images@,
            final(self).rating_filter == old(self).rating_filter,
            final(self).sort_order == old(self).sort_order,
    {
        let next = self.rotation_for(&path).rotate_ccw();
        self.set_rotation(path, next);
        next
    }

    /// Record `rotation` for `path`; the identity rotation removes the entry.
    pub fn set_rotation(&mut self, path: String, rotation: Rotation)
        requires
            old(self).wf(),
        ensures
            final(self).wf(),
            final(self).pending_rotations@ == with_rotation(old(self).pending_rotations@, path@, rotation),
            final(self).pending_crops@ == old(self).pending_crops@,
            final(self).ignored_images@ == old(self).ignored_images@,
            final(self).rating_filter == old(self).rating_filter,
            final(self).sort_order == old(self).sort_order,
    {
        if rotation.is_identity() {
            self.pending_rotations.remove(&path);
        } else {
            self.pending_rotations.insert(path, rotation);
        }
    }

    /// The pending rotation for `path`; the identity if there is none.
    pub fn rotation_for(&self, path: &String) -> (r: Rotation)
        requires
            self.wf(),
        ensures
            r == self.rotation_of(path@),
    {
        match self.pending_rotations.get(path) {
            Some(r) => r,
            None => Rotation::Identity,
        }
    }

    pub fn set_crop(&mut self, path: String, crop: C)
        requires
            old(self).wf(),
        ensures
            final(self).wf(),
            final(self).pending_crops@ == old(self).pending_crops@.insert(path@, crop),
            final(self).pending_rotations@ == old(self).pending_rotations@,
            final(self).ignored_images@ == old(self).ignored_images@,
            final(self).rating_filter == old(self).rating_filter,
            final(self).sort_order == old(self).sort_order,
    {
        self.pending_crops.insert(path, crop);
    }

    pub fn clear_crop(&mut self, path: &String)
        requires
            old(self).wf(),
        ensures
            final(self).wf(),
            final(self).pending_crops@ == old(self).pending_crops@.remove(path@),
            final(self).pending_rotations@ == old(self).pending_rotations@,
            final(self).ignored_images@ == old(self).ignored_images@,
            final(self).rating_filter == old(self).rating_filter,
            final(self).sort_order == old(self).sort_order,
    {
        self.pending_crops.remove(path);
    }

    pub fn ignore_image(&mut self, path: String)
        requires
            old(self).wf(),
        ensures
            final(self).wf(),
            final(self).ignored_images@ == old(self).ignored_images@.insert(path@),
            final(self).pending_rotations@ == old(self).pending_rotations@,
            final(self).pending_crops@ == old(self).pending_crops@,
            final(self).rating_filter == old(self).rating_filter,
            final(self).sort_order == old(self).sort_order,
    {
        self.ignored_images.insert(path);
    }

    pub fn is_ignored(&self, path: &String) -> (r: bool)
        ensures
            r == self.ignored_images@.contains(path@),
    {
        self.ignored_images.contains(path)
    }
}

impl<C: Copy> SessionState<C> {
    pub fn crop_for(&self, path: &String) -> (r: Option<C>)
        requires
            self.wf(),
        ensures
            r == (if self.pending_crops@.dom().contains(path@) {
                Some(self.pending_crops@[path@])
            } else {
                None
            }),
    {
        self.pending_crops.get(path)
    }
}

} // verus!

//! Frame-oriented input state tracking.
//!
//! The application decodes window events into `InputKind` values and feeds
//! them here; the tracker keeps the currently pressed keys and the keys that
//! went down or up since the last frame, plus an accumulated zoom scroll in
//! fixed-point units.

use vstd::prelude::*;

verus! {

/// A recognized input action.
#[derive(Clone, Copy, PartialEq, Eq, Structural, Hash, Debug)]
pub enum InputKind {
    ArrowUp,
    ArrowDown,
    ArrowLeft,
    ArrowRight,
    DirForward,
    DirRight,
    DirLeft,
    DirBack,
    DirDown,
    DirUp,
    CamSwitch,
}

/// Tracks which keys are held, and which changed this frame.  The key lists
/// never hold a key twice.
pub struct InputManager {
    pub pressed: Vec<InputKind>,
    pub just_pressed: Vec<InputKind>,
    pub just_released: Vec<InputKind>,
    /// Accumulated zoom scroll of the current frame, in fixed-point units.
    pub zoom: i64,
    pub escape_requested: bool,
}

pub open spec fn input_manager_wf(m: InputManager) -> bool {
    m.pressed@.no_duplicates() && m.just_pressed@.no_duplicates()
        && m.just_released@.no_duplicates()
}

fn contains_kind(v: &Vec<InputKind>, key: InputKind) -> (r: bool)
    ensures
        r == v@.contains(key),
{
    let mut i: usize = 0;
    while i < v.len()
        invariant
            i <= v@.len(),
            forall|j: int| 0 <= j < i ==> v@[j] != key,
        decreases v@.len() - i,
    {
        if v[i] == key {
            return true;
        }
        i += 1;
    }
    false
}

/// Add `key` to the list if it is not yet there.
fn insert_kind(v: &mut Vec<InputKind>, key: InputKind)
    requires
        old(v)@.no_duplicates(),
    ensures
        final(v)@.no_duplicates(),
        forall|k: InputKind| final(v)@.contains(k) <==> (old(v)@.contains(k) || k == key),
{
    if !contains_kind(v, key) {
        v.push(key);
        proof {
            assert forall|k: InputKind| v@.contains(k) implies (old(v)@.contains(k) || k
                == key) by {
                let j = choose|j: int| 0 <= j < v@.len() && v@[j] == k;
                if j < old(v)@.len() {
                    assert(old(v)@[j] == k);
                }
            }
            assert forall|k: InputKind| (old(v)@.contains(k) || k == key) implies v@.contains(
                k,
            ) by {
                if old(v)@.contains(k) {
                    let j = choose|j: int| 0 <= j < old(v)@.len() && old(v)@[j] == k;
                    assert(v@[j] == k);
                } else {
                    assert(v@[v@.len() - 1] == key);
                }
            }
            assert forall|a: int, b: int|
                0 <= a < v@.len() && 0 <= b < v@.len() && a != b implies v@[a] != v@[b] by {
                if a < old(v)@.len() && b < old(v)@.len() {
                } else if a < old(v)@.len() {
                    assert(old(v)@[a] == v@[a]);
                    assert(!old(v)@.contains(key) && v@[b] == key);
                } else {
                    assert(old(v)@[b] == v@[b]);
                    assert(!old(v)@.contains(key) && v@[a] == key);
                }
            }
        }
    }
}

/// Remove `key` from the list if it is there.
fn remove_kind(v: &mut Vec<InputKind>, key: InputKind)
    requires
        old(v)@.no_duplicates(),
    ensures
        final(v)@.no_duplicates(),
        forall|k: InputKind| final(v)@.contains(k) <==> (old(v)@.contains(k) && k != key),
{
    let mut i: usize = 0;
    while i < v.len()
        invariant
            i <= v@.len(),
            v@ == old(v)@,
            v@.no_duplicates(),
            forall|j: int| 0 <= j < i ==> v@[j] != key,
        decreases v@.len() - i,
    {
        if v[i] == key {
            let ghost before = v@;
            v.remove(i);
            proof {
                assert(before.no_duplicates());
                assert(before[i as int] == key);
                assert(v@ =~= before.subrange(0, i as int) + before.subrange(
                    i + 1,
                    before.len() as int,
                ));
                assert forall|k: InputKind| v@.contains(k) implies (before.contains(k) && k
                    != key) by {
                    let j = choose|j: int| 0 <= j < v@.len() && v@[j] == k;
                    if j < i {
                        assert(before[j] == k);
                    } else {
                        assert(before[j + 1] == k);
                    }
                }
                assert forall|k: InputKind| (before.contains(k) && k != key) implies v@.contains(
                    k,
                ) by {
                    let j = choose|j: int| 0 <= j < before.len() && before[j] == k;
                    if j < i {
                        assert(v@[j] == k);
                    } else {
                        assert(j != i);
                        assert(v@[j - 1] == k);
                    }
                }
                assert forall|a: int, b: int|
                    0 <= a < v@.len() && 0 <= b < v@.len() && a != b implies v@[a] != v@[b] by {
                    let a2: int = if a < i {
                        a
                    } else {
                        a + 1
                    };
                    let b2: int = if b < i {
                        b
                    } else {
                        b + 1
                    };
                    assert(v@[a] == before[a2] && v@[b] == before[b2]);
                }
            }
            return ;
        }
        i += 1;
    }
}

impl InputManager {
    /// A fresh tracker: no keys held, no zoom, no escape request.
    pub fn new() -> (m: InputManager)
        ensures
            input_manager_wf(m),
            m.pressed@ == Seq::<InputKind>::empty(),
            m.just_pressed@ == Seq::<InputKind>::empty(),
            m.just_released@ == Seq::<InputKind>::empty(),
            m.zoom == 0,
            m.escape_requested == false,
    {
        InputManager {
            pressed: Vec::new(),
            just_pressed: Vec::new(),
            just_released: Vec::new(),
            zoom: 0,
            escape_requested: false,
        }
    }

    /// Record that `key` went down (`state_pressed`) or up: a key going
    /// down joins the pressed and just-pressed sets, a key going up leaves
    /// the pressed set and joins the just-released set.
    pub fn key_event(&mut self, key: InputKind, state_pressed: bool)
        requires
            input_manager_wf(*old(self)),
        ensures
            input_manager_wf(*final(self)),
            forall|k: InputKind|
                final(self).pressed@.contains(k) <==> if state_pressed {
                    (old(self).pressed@.contains(k) || k == key)
                } else {
                    (old(self).pressed@.contains(k) && k != key)
                },
            forall|k: InputKind|
                final(self).just_pressed@.contains(k) <==> (old(self).just_pressed@.contains(k)
                    || (state_pressed && k == key)),
            forall|k: InputKind|
                final(self).just_released@.contains(k) <==> (old(self).just_released@.contains(k)
                    || (!state_pressed && k == key)),
            final(self).zoom == old(self).zoom,
            final(self).escape_requested == old(self).escape_requested,
    {
        if state_pressed {
            insert_kind(&mut self.pressed, key);
            insert_kind(&mut self.just_pressed, key);
        } else {
            remove_kind(&mut self.pressed, key);
            insert_kind(&mut self.just_released, key);
        }
    }

    /// Accumulate one zoom scroll step of the current frame, saturating at
    /// the extremes of the fixed-point range.
    pub fn zoom_event(&mut self, delta: i64)
        ensures
            final(self).zoom == if old(self).zoom - delta < i64::MIN {
                i64::MIN as int
            } else if old(self).zoom - delta > i64::MAX {
                i64::MAX as int
            } else {
                old(self).zoom - delta
            },
            final(self).pressed == old(self).pressed,
            final(self).just_pressed == old(self).just_pressed,
            final(self).just_released == old(self).just_released,
            final(self).escape_requested == old(self).escape_requested,
    {
        let z = self.zoom;
        self.zoom = if delta >= 0 {
            if z < i64::MIN + delta {
                i64::MIN
            } else {
                z - delta
            }
        } else {
            if z > i64::MAX + delta {
                i64::MAX
            } else {
                z - delta
            }
        };
    }

    /// Is `key` currently held?
    pub fn pressed(&self, key: InputKind) -> (r: bool)
        ensures
            r == self.pressed@.contains(key),
    {
        contains_kind(&self.pressed, key)
    }

    /// Did `key` go down since the last frame?
    pub fn just_pressed(&self, key: InputKind) -> (r: bool)
        ensures
            r == self.just_pressed@.contains(key),
    {
        contains_kind(&self.just_pressed, key)
    }

    /// Did `key` go up since the last frame?
    pub fn just_released(&self, key: InputKind) -> (r: bool)
        ensures
            r == self.just_released@.contains(key),
    {
        contains_kind(&self.just_released, key)
    }

    /// Close out the frame: zoom and the per-frame sets reset, held keys
    /// stay.
    pub fn reset_frame(&mut self)
        requires
            input_manager_wf(*old(self)),
        ensures
            input_manager_wf(*final(self)),
            final(self).zoom == 0,
            final(self).just_pressed@ == Seq::<InputKind>::empty(),
            final(self).just_released@ == Seq::<InputKind>::empty(),
            final(self).pressed == old(self).pressed,
            final(self).escape_requested == old(self).escape_requested,
    {
        self.zoom = 0;
        self.just_pressed.clear();
        self.just_released.clear();
        proof {
            assert(self.just_pressed@ =~= Seq::<InputKind>::empty());
            assert(self.just_released@ =~= Seq::<InputKind>::empty());
        }
    }
}

} // verus!

//! Undo and redo: whole snapshots of the authored level, taken before each edit.
use vstd::prelude::*;

use crate::level::{copied, Level, LevelView};
use crate::world::{Mode, World};

verus! {

/// How many edits can be stepped back.
pub const MAX_HISTORY: usize = 100;

/// The level with the states before and after it.
pub struct HistoryView {
    pub level: LevelView,
    pub undo: Seq<LevelView>,
    pub redo: Seq<LevelView>,
}

pub open spec fn levels_of(s: Seq<Level>) -> Seq<LevelView> {
    s.map_values(|l: Level| l@)
}

impl World {
    pub open spec fn history(self) -> HistoryView {
        HistoryView {
            level: self.level@,
            undo: levels_of(self.undo_stack@),
            redo: levels_of(self.redo_stack@),
        }
    }
}

impl HistoryView {
    /// The history is no deeper than [`MAX_HISTORY`], and every state in it is a level.
    pub open spec fn wf(self) -> bool {
        &&& self.undo.len() + self.redo.len() <= MAX_HISTORY
        &&& self.level.wf()
        &&& forall|k: int| 0 <= k < self.undo.len() ==> (#[trigger] self.undo[k]).wf()
        &&& forall|k: int| 0 <= k < self.redo.len() ==> (#[trigger] self.redo[k]).wf()
    }

    /// After an edit that started from `before`: it can be stepped back, nothing can be
    /// stepped forward, and the oldest state is forgotten when there are too many.
    pub open spec fn committed(self, before: LevelView) -> HistoryView {
        let pushed = self.undo.push(before);
        HistoryView {
            level: self.level,
            undo: if pushed.len() > MAX_HISTORY {
                pushed.skip(1)
            } else {
                pushed
            },
            redo: Seq::empty(),
        }
    }

    /// One step back.
    pub open spec fn undone(self) -> HistoryView {
        HistoryView {
            level: self.undo.last(),
            undo: self.undo.drop_last(),
            redo: self.redo.push(self.level),
        }
    }

    /// One step forward.
    pub open spec fn redone(self) -> HistoryView {
        HistoryView {
            level: self.redo.last(),
            undo: self.undo.push(self.level),
            redo: self.redo.drop_last(),
        }
    }
}

/// Redo takes back what undo did.
pub proof fn redo_reverses_undo(h: HistoryView)
    requires
        h.undo.len() > 0,
    ensures
        h.undone().redone() == h,
{
    assert(h.undone().redone().undo =~= h.undo);
    assert(h.undone().redone().redo =~= h.redo);
}

/// Undo takes back what redo did.
pub proof fn undo_reverses_redo(h: HistoryView)
    requires
        h.redo.len() > 0,
    ensures
        h.redone().undone() == h,
{
    assert(h.redone().undone().undo =~= h.undo);
    assert(h.redone().undone().redo =~= h.redo);
}

/// An edit is one step back from the level as it was: the whole authored state, not only
/// its shape.
pub proof fn undo_takes_back_an_edit(h: HistoryView, edited: LevelView)
    ensures
        (HistoryView { level: edited, ..h }).committed(h.level).undo.len() > 0,
        (HistoryView { level: edited, ..h }).committed(h.level).undone().level == h.level,
        (HistoryView { level: edited, ..h }).committed(h.level).undone().redo == seq![edited],
{
    let c = (HistoryView { level: edited, ..h }).committed(h.level);
    assert(c.undo.last() == h.level);
    assert(c.undone().redo =~= seq![edited]);
}

/// However the steps are mixed, no more than [`MAX_HISTORY`] states are ever held, and every
/// one of them is a level.
pub proof fn history_stays_sound(h: HistoryView, before: LevelView)
    requires
        h.wf(),
        before.wf(),
    ensures
        h.committed(before).wf(),
        h.undo.len() > 0 ==> h.undone().wf(),
        h.redo.len() > 0 ==> h.redone().wf(),
{
    assert forall|k: int| 0 <= k < h.committed(before).undo.len() implies (
    #[trigger] h.committed(before).undo[k]).wf() by {
        let pushed = h.undo.push(before);
        if pushed.len() > MAX_HISTORY {
            assert(h.committed(before).undo[k] == pushed[k + 1]);
        }
    }
    if h.undo.len() > 0 {
        assert(h.undo[h.undo.len() - 1].wf());
    }
    if h.redo.len() > 0 {
        assert(h.redo[h.redo.len() - 1].wf());
    }
}

/// The next revision; after the last one they start over.
pub open spec fn next_revision(r: u64) -> u64 {
    if r == u64::MAX {
        0
    } else {
        (r + 1) as u64
    }
}

/// The placed objects of a level that was stepped to, in their saved form.
pub struct Reload {
    pub extras: Vec<u8>,
}

impl World {
    /// What an edit that started from `before` leaves behind.
    pub open spec fn is_committed(was: World, before: LevelView, now: World) -> bool {
        &&& now.history() == was.history().committed(before)
        &&& now.revision == next_revision(was.revision)
        &&& now == (World {
            undo_stack: now.undo_stack,
            redo_stack: now.redo_stack,
            revision: now.revision,
            ..was
        })
    }

    /// What a step through the history to `to` leaves behind: the level is the other one, and
    /// nothing points at the old one any more. The placed objects have to be loaded again from
    /// what is handed back.
    pub open spec fn is_stepped_to(was: World, to: HistoryView, now: World, r: Reload) -> bool {
        &&& now.history() == to
        &&& r.extras@ == to.level.extras
        &&& now.revision == next_revision(was.revision)
        &&& now.edit == was.edit.cleared()
        &&& now == (World {
            level: now.level,
            edit: now.edit,
            undo_stack: now.undo_stack,
            redo_stack: now.redo_stack,
            revision: now.revision,
            ..was
        })
    }

    /// What undo does: a step back, except in a hunt and with nothing to step back to.
    pub open spec fn is_undone(was: World, now: World, r: Option<Reload>) -> bool {
        &&& r is Some <==> was.mode == Mode::Build && was.undo_stack@.len() > 0
        &&& r is None ==> now == was
        &&& r matches Some(x) ==> World::is_stepped_to(was, was.history().undone(), now, x)
    }

    /// What redo does: a step forward, except in a hunt and with nothing that was stepped back.
    pub open spec fn is_redone(was: World, now: World, r: Option<Reload>) -> bool {
        &&& r is Some <==> was.mode == Mode::Build && was.redo_stack@.len() > 0
        &&& r is None ==> now == was
        &&& r matches Some(x) ==> World::is_stepped_to(was, was.history().redone(), now, x)
    }

    pub(crate) fn bump_revision(&mut self)
        ensures
            *final(self) == (World {
                revision: next_revision(old(self).revision),
                ..*old(self)
            }),
    {
        self.revision = if self.revision == u64::MAX {
            0
        } else {
            self.revision + 1
        };
    }

    /// Takes up the placed objects as they are now, in their saved form.
    pub fn save_objects(&mut self, extras: Vec<u8>)
        ensures
            final(self).level@ == (LevelView { extras: extras@, ..old(self).level@ }),
            *final(self) == (World { level: final(self).level, ..*old(self) }),
    {
        self.level.extras = extras;
    }

    /// Files `snap`, the level before an edit that has just been made.
    pub fn commit_snapshot(&mut self, snap: Level)
        ensures
            World::is_committed(*old(self), snap@, *final(self)),
            old(self).history().wf() && snap@.wf() ==> final(self).history().wf(),
    {
        let ghost before = levels_of(self.undo_stack@);
        proof {
            if old(self).history().wf() && snap@.wf() {
                history_stays_sound(old(self).history(), snap@);
            }
        }
        self.bump_revision();
        self.undo_stack.push(snap);
        assert(levels_of(self.undo_stack@) =~= before.push(snap@));
        if self.undo_stack.len() > MAX_HISTORY {
            self.undo_stack.remove(0);
            assert(levels_of(self.undo_stack@) =~= before.push(snap@).skip(1));
        }
        self.redo_stack.clear();
        assert(levels_of(self.redo_stack@) =~= Seq::empty());
    }

    /// Files the level as it is now, for an edit that is about to be made.
    pub fn record_undo(&mut self)
        ensures
            World::is_committed(*old(self), old(self).level@, *final(self)),
            old(self).history().wf() ==> final(self).history().wf(),
    {
        let snap: Level = self.level.snapshot();
        self.commit_snapshot(snap);
    }

    /// Closes an edit that started from `before`: filed when it changed something, forgotten
    /// when it did not.
    pub fn with_undo(&mut self, before: Level, changed: bool)
        ensures
            changed ==> World::is_committed(*old(self), before@, *final(self)),
            !changed ==> *final(self) == *old(self),
            old(self).history().wf() && before@.wf() ==> final(self).history().wf(),
    {
        if changed {
            self.commit_snapshot(before);
        }
    }

    /// Steps the level back one edit. Refused outside BUILD and when there is nothing to
    /// step back to. The placed objects are not touched: the result is what they have to be
    /// loaded again from.
    pub fn undo(&mut self) -> (r: Option<Reload>)
        ensures
            World::is_undone(*old(self), *final(self), r),
            old(self).history().wf() ==> final(self).history().wf(),
    {
        if self.mode != Mode::Build || self.undo_stack.len() == 0 {
            return None;
        }
        let mut level: Level = self.undo_stack.pop().unwrap();
        core::mem::swap(&mut self.level, &mut level);
        proof {
            if old(self).history().wf() {
                history_stays_sound(old(self).history(), old(self).level@);
            }
        }
        self.redo_stack.push(level);
        self.bump_revision();
        self.edit.clear();
        assert(levels_of(self.undo_stack@) =~= levels_of(old(self).undo_stack@).drop_last());
        assert(levels_of(self.redo_stack@) =~= levels_of(old(self).redo_stack@).push(
            old(self).level@,
        ));
        Some(Reload { extras: copied(&self.level.extras) })
    }

    /// Steps the level forward again. Refused outside BUILD and when nothing was stepped
    /// back. The placed objects are not touched: the result is what they have to be loaded
    /// again from.
    pub fn redo(&mut self) -> (r: Option<Reload>)
        ensures
            World::is_redone(*old(self), *final(self), r),
            old(self).history().wf() ==> final(self).history().wf(),
    {
        if self.mode != Mode::Build || self.redo_stack.len() == 0 {
            return None;
        }
        let mut level: Level = self.redo_stack.pop().unwrap();
        core::mem::swap(&mut self.level, &mut level);
        proof {
            if old(self).history().wf() {
                history_stays_sound(old(self).history(), old(self).level@);
            }
        }
        self.undo_stack.push(level);
        self.bump_revision();
        self.edit.clear();
        assert(levels_of(self.redo_stack@) =~= levels_of(old(self).redo_stack@).drop_last());
        assert(levels_of(self.undo_stack@) =~= levels_of(old(self).undo_stack@).push(
            old(self).level@,
        ));
        Some(Reload { extras: copied(&self.level.extras) })
    }
}

/// Redo right after undo gives the whole authored level back, with the placed objects to load
/// that it had, and the history as it was. Neither is refused.
pub proof fn redo_after_undo_restores_the_level(
    before: World,
    between: World,
    after: World,
    back: Option<Reload>,
    forth: Option<Reload>,
)
    requires
        before.mode == Mode::Build,
        before.undo_stack@.len() > 0,
        World::is_undone(before, between, back),
        World::is_redone(between, after, forth),
    ensures
        back is Some && forth is Some,
        after.level@ == before.level@,
        forth->0.extras@ == before.level@.extras,
        after.history() == before.history(),
        after.undo_stack@.len() == before.undo_stack@.len(),
        after.redo_stack@.len() == before.redo_stack@.len(),
{
    redo_reverses_undo(before.history());
    assert(between.history().redo.len() == between.redo_stack@.len());
    assert(after.history().undo.len() == after.undo_stack@.len());
    assert(after.history().redo.len() == after.redo_stack@.len());
    assert(before.history().undo.len() == before.undo_stack@.len());
    assert(before.history().redo.len() == before.redo_stack@.len());
}

/// Undo right after an edit gives back the level from before it.
pub proof fn undo_after_an_edit_restores_the_level(
    edited: World,
    start: LevelView,
    filed: World,
    after: World,
    back: Option<Reload>,
)
    requires
        edited.mode == Mode::Build,
        World::is_committed(edited, start, filed),
        World::is_undone(filed, after, back),
    ensures
        back is Some,
        after.level@ == start,
        back->0.extras@ == start.extras,
{
    let h = HistoryView { level: start, ..edited.history() };
    undo_takes_back_an_edit(h, edited.level@);
    assert((HistoryView { level: edited.level@, ..h }) == edited.history());
    assert(filed.history().undo.len() == filed.undo_stack@.len());
}

/// An edit can be taken back first: the level before it is the newest to undo, the older ones stay
/// in order, of a hundred at most, the oldest going first, and nothing is left to redo.
pub proof fn an_edit_is_the_first_to_be_undone(h: HistoryView, before: LevelView)
    requires
        h.undo.len() <= 100,
    ensures
        ({
            let c = h.committed(before);
            &&& c.level == h.level && c.redo.len() == 0
            &&& c.undo.last() == before && 1 <= c.undo.len() <= 100
            &&& h.undo.len() < 100 ==> c.undo.drop_last() == h.undo
            &&& h.undo.len() == 100 ==> c.undo.drop_last() == h.undo.skip(1)
        }),
{
    let c = h.committed(before);
    if h.undo.len() < 100 {
        assert(c.undo.drop_last() =~= h.undo);
    } else {
        assert(c.undo.drop_last() =~= h.undo.skip(1));
    }
}

/// Undo goes to the newest level to undo and keeps the present one as the first to redo; redo goes
/// the other way. Either forgets the selection and the tool in hand and counts a revision.
pub proof fn steps_go_to_the_neighbouring_level(was: World, now: World, r: Reload)
    ensures
        was.mode == Mode::Build && was.undo_stack@.len() > 0 && World::is_undone(was, now, Some(r))
            ==> {
            &&& now.level@ == was.undo_stack@.last()@ && r.extras@ == now.level@.extras
            &&& now.undo_stack@.len() == was.undo_stack@.len() - 1
            &&& now.redo_stack@.len() == was.redo_stack@.len() + 1
            &&& now.redo_stack@.last()@ == was.level@
        },
        was.mode == Mode::Build && was.redo_stack@.len() > 0 && World::is_redone(was, now, Some(r))
            ==> {
            &&& now.level@ == was.redo_stack@.last()@ && r.extras@ == now.level@.extras
            &&& now.redo_stack@.len() == was.redo_stack@.len() - 1
            &&& now.undo_stack@.len() == was.undo_stack@.len() + 1
            &&& now.undo_stack@.last()@ == was.level@
        },
        World::is_undone(was, now, Some(r)) || World::is_redone(was, now, Some(r)) ==> {
            &&& was.revision < u64::MAX ==> now.revision == was.revision + 1
            &&& now.edit.active is None && now.edit.sel_bounds is None && !now.edit.tool_armed
            &&& now.player == was.player && now.settings == was.settings && now.arms == was.arms
                && now.ecs == was.ecs
        },
{
    let (u, d) = (was.undo_stack@, was.redo_stack@);
    let (u2, d2) = (now.undo_stack@, now.redo_stack@);
    assert(levels_of(u2).len() == u2.len() && levels_of(d2).len() == d2.len());
    if was.mode == Mode::Build && u.len() > 0 && World::is_undone(was, now, Some(r)) {
        assert(levels_of(u).last() == u.last()@);
        assert(levels_of(d2) == levels_of(d).push(was.level@));
        assert(levels_of(d2).last() == d2.last()@);
        assert(levels_of(u2) == levels_of(u).drop_last());
    }
    if was.mode == Mode::Build && d.len() > 0 && World::is_redone(was, now, Some(r)) {
        assert(levels_of(d).last() == d.last()@);
        assert(levels_of(u2) == levels_of(u).push(was.level@));
        assert(levels_of(u2).last() == u2.last()@);
        assert(levels_of(d2) == levels_of(d).drop_last());
    }
}

} // verus!

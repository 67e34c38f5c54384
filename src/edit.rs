//! The edit guard: at most one account is edited at a time. While an edit is
//! open the other mutations are refused by the caller, which consults
//! `is_locked`.
use vstd::prelude::*;
use crate::clock::{parse_wall_clock, wall_clock_of_text, wall_offset_at};
use crate::store::AccountStore;
use crate::recurrence::utc_of_wall;

verus! {

/// The UTC instant of wall-clock seconds `wall` under a local offset `offset`.
pub open spec fn utc_instant(wall: int, offset: int) -> u64 {
    (wall - offset) as u64
}

/// `after` is `before` with the edited account's last event set to the
/// instant its draft text denotes, taken to UTC under some local offset
/// strictly within one day.
pub open spec fn draft_applied(
    state: EditState,
    before: Seq<(Seq<char>, u64)>,
    after: Seq<(Seq<char>, u64)>,
) -> bool {
    match state {
        EditState::Editing { index, draft } => index < before.len() && match wall_clock_of_text(
            draft@,
        ) {
            Some(w) => exists|o: int|
                -86400 < o < 86400 && 0 <= w - o && after == before.update(
                    index as int,
                    (before[index as int].0, #[trigger] utc_instant(w as int, o)),
                ),
            None => false,
        },
        EditState::Idle => false,
    }
}

/// Either no edit is open, or the account at `index` is being edited with
/// `draft` as the text of its last-event date.
pub enum EditState {
    Idle,
    Editing { index: usize, draft: String },
}

pub struct EditGuard {
    pub state: EditState,
}

impl EditGuard {
    /// A guard with no edit open.
    pub fn new() -> (r: Self)
        ensures
            r.state is Idle,
    {
        EditGuard { state: EditState::Idle }
    }

    /// Whether an edit is open.
    pub fn is_locked(&self) -> (r: bool)
        ensures
            r == (self.state is Editing),
    {
        match self.state {
            EditState::Idle => false,
            EditState::Editing { .. } => true,
        }
    }

    /// Opens an edit of the account at `index` with `initial_text` as the
    /// draft. Refused, with nothing changed, while another edit is open.
    pub fn begin(&mut self, index: usize, initial_text: String) -> (r: bool)
        ensures
            r == (old(self).state is Idle),
            r ==> (final(self).state matches EditState::Editing { index: i, draft: d } && i == index
                && d@ == initial_text@),
            !r ==> final(self).state == old(self).state,
    {
        match self.state {
            EditState::Idle => {
                self.state = EditState::Editing { index, draft: initial_text };
                true
            },
            EditState::Editing { .. } => false,
        }
    }

    /// The index under edit, if an edit is open.
    pub fn editing_index(&self) -> (r: Option<usize>)
        ensures
            self.state is Idle ==> r is None,
            self.state matches EditState::Editing { index: i, .. } ==> r == Some(i),
    {
        match &self.state {
            EditState::Idle => None,
            EditState::Editing { index, .. } => Some(*index),
        }
    }

    /// Replaces the draft text of the open edit; refused where none is open.
    pub fn set_draft(&mut self, text: String) -> (r: bool)
        ensures
            r == (old(self).state is Editing),
            old(self).state matches EditState::Editing { index: i, .. } ==> (
            final(self).state matches EditState::Editing { index: j, draft: d } && j == i && d@
                == text@),
            !r ==> final(self).state == old(self).state,
    {
        match &self.state {
            EditState::Idle => false,
            EditState::Editing { index, .. } => {
                let i = *index;
                self.state = EditState::Editing { index: i, draft: text };
                true
            },
        }
    }

    /// Closes the open edit. Returns whether one was open; the store is then
    /// to be written out.
    pub fn commit(&mut self) -> (r: bool)
        ensures
            r == (old(self).state is Editing),
            final(self).state is Idle,
    {
        let was = self.is_locked();
        self.state = EditState::Idle;
        was
    }

    /// Where the draft text parses as a wall-clock date, sets the edited
    /// account's last event to that instant in UTC and returns true. Nothing
    /// changes where no edit is open, the text does not parse, the index is
    /// stale, or the time zone cannot place the instant.
    pub fn apply_draft(&self, store: &mut AccountStore) -> (r: bool)
        ensures
            !r ==> final(store).view() == old(store).view(),
            r ==> draft_applied(self.state, old(store).view(), final(store).view()),
    {
        match &self.state {
            EditState::Idle => false,
            EditState::Editing { index, draft } => {
                let wall = match parse_wall_clock(draft.as_str()) {
                    Some(w) => w,
                    None => {
                        return false;
                    },
                };
                let offset = match wall_offset_at(wall) {
                    Some(o) => o,
                    None => {
                        return false;
                    },
                };
                apply_wall(store, *index, wall, offset)
            },
        }
    }
}

/// Sets the last event of the account at `index` to the Unix time of the
/// wall-clock seconds `wall` under the local offset `offset`. Refused, with
/// nothing changed, where the index is past the end or that instant is
/// negative or past `i64::MAX`.
pub fn apply_wall(store: &mut AccountStore, index: usize, wall: i64, offset: i32) -> (r: bool)
    ensures
        r == (index < old(store).view().len() && 0 <= wall - offset <= i64::MAX),
        r ==> final(store).view() == old(store).view().update(
            index as int,
            (old(store).view()[index as int].0, utc_instant(wall as int, offset as int)),
        ),
        !r ==> final(store).view() == old(store).view(),
{
    let utc = match utc_of_wall(wall, offset) {
        Some(u) => u,
        None => {
            return false;
        },
    };
    match store.retime(index, utc) {
        Ok(()) => true,
        Err(_) => false,
    }
}

} // verus!

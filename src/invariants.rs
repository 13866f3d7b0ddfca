//! The consistency checker run over the state after mutations.
use vstd::prelude::*;

use crate::state::State;
use crate::window::{WindowId, WindowState};
use crate::workspace::WorkspaceId;

verus! {

/// Which invariant was violated.
#[derive(Debug, Clone)]
pub enum InvariantError {
    /// The focused window does not exist.
    FocusedWindowMissing(WindowId),
    /// A visible window is both in the scratchpad and on its workspace's lists.
    WindowInBothWorkspaceAndScratchpad(WindowId),
    /// A window is on a workspace list but names another workspace.
    WorkspaceMismatch(WindowId),
    /// The focused workspace does not exist.
    FocusedWorkspaceOutOfRange,
    /// A mark names a window that does not exist.
    MarkPointsToMissing(String),
}

impl State {
    /// The window at position `i` is in the scratchpad, listed on its own
    /// workspace, and not hidden.
    pub open spec fn scratch_conflict(&self, i: int) -> bool {
        let w = self.windows@[i];
        &&& self.scratchpad@.contains(w.id)
        &&& match w.workspace {
            Some(ws) => self.has_workspace(ws) && self.ws(ws).spec_contains(w.id),
            None => false,
        }
        &&& !w.state.has(WindowState::HIDDEN)
    }

    /// Every window in scratchpad conflict is one shown from the scratchpad.
    pub open spec fn scratch_ok(&self, shown: Seq<WindowId>) -> bool {
        forall|i: int| 0 <= i < self.windows@.len() && #[trigger] self.scratch_conflict(i)
            ==> shown.contains(self.windows@[i].id)
    }

    /// First window position, from `i` on, in scratchpad conflict.
    pub open spec fn first_conflict(&self, i: int) -> Option<int>
        decreases self.windows@.len() - i,
    {
        if i < 0 || i >= self.windows@.len() {
            None
        } else if self.scratch_conflict(i) {
            Some(i)
        } else {
            self.first_conflict(i + 1)
        }
    }

    /// First mark position, from `i` on, that names a missing window.
    pub open spec fn first_dangling_mark(&self, i: int) -> Option<int>
        decreases self.marks@.len() - i,
    {
        if i < 0 || i >= self.marks@.len() {
            None
        } else if !self.has_window(self.marks@[i].1) {
            Some(i)
        } else {
            self.first_dangling_mark(i + 1)
        }
    }
}

/// Validate the core invariants, reporting the first violation found: the
/// focused window, the focused workspace, then each window in order for a
/// scratchpad conflict, then each mark in order.
pub fn validate(state: &State) -> (r: Result<(), InvariantError>)
    requires
        state.wf(),
    ensures
        match state.focus.focused_window {
            Some(f) if !state.has_window(f) => r matches Err(InvariantError::FocusedWindowMissing(x)) && x == f,
            _ => match state.focus.focused_workspace {
                Some(w) if !state.has_workspace(w) => r matches Err(InvariantError::FocusedWorkspaceOutOfRange),
                _ => match state.first_conflict(0) {
                    Some(i) => r matches Err(InvariantError::WindowInBothWorkspaceAndScratchpad(x)) && x
                        == state.windows@[i].id,
                    None => match state.first_dangling_mark(0) {
                        Some(i) => r matches Err(InvariantError::MarkPointsToMissing(m)) && m@ == state.marks@[i].0@,
                        None => r is Ok,
                    },
                },
            },
        },
{
    if let Some(fid) = state.focus.focused_window {
        if state.find_window_index(fid).is_none() {
            return Err(InvariantError::FocusedWindowMissing(fid));
        }
    }
    if let Some(ws_id) = state.focus.focused_workspace {
        if state.find_workspace_index(ws_id).is_none() {
            return Err(InvariantError::FocusedWorkspaceOutOfRange);
        }
    }
    let mut i: usize = 0;
    while i < state.windows.len()
        invariant
            state.wf(),
            i <= state.windows@.len(),
            state.first_conflict(0) == state.first_conflict(i as int),
            state.focus.focused_window matches Some(f) ==> state.has_window(f),
            state.focus.focused_workspace matches Some(w) ==> state.has_workspace(w),
        decreases state.windows@.len() - i,
    {
        let window = &state.windows[i];
        let wid = window.id;
        let mut in_scratchpad = false;
        let mut k: usize = 0;
        while k < state.scratchpad.len()
            invariant
                k <= state.scratchpad@.len(),
                in_scratchpad == exists|j: int| 0 <= j < k && state.scratchpad@[j] == wid,
            decreases state.scratchpad@.len() - k,
        {
            if state.scratchpad[k] == wid {
                in_scratchpad = true;
            }
            k = k + 1;
        }
        let in_workspace = match window.workspace {
            Some(ws_id) => match state.workspace(ws_id) {
                Some(ws) => ws.contains(wid),
                None => false,
            },
            None => false,
        };
        proof {
            if let Some(ws_id) = window.workspace {
                if let Some(q) = state.ws_index(ws_id) {
                    state.lemma_ws_index(q);
                    assert(state.has_workspace(ws_id));
                }
            }
            assert(in_scratchpad == state.scratchpad@.contains(wid));
            assert(in_workspace == match window.workspace {
                Some(ws) => state.has_workspace(ws) && state.ws(ws).spec_contains(wid),
                None => false,
            });
        }
        if in_scratchpad && in_workspace && !window.state.contains(WindowState::HIDDEN) {
            return Err(InvariantError::WindowInBothWorkspaceAndScratchpad(wid));
        }
        i = i + 1;
    }
    let mut m: usize = 0;
    while m < state.marks.len()
        invariant
            state.wf(),
            m <= state.marks@.len(),
            state.first_dangling_mark(0) == state.first_dangling_mark(m as int),
            state.first_conflict(0) is None,
            state.focus.focused_window matches Some(f) ==> state.has_window(f),
            state.focus.focused_workspace matches Some(w) ==> state.has_workspace(w),
        decreases state.marks@.len() - m,
    {
        if state.find_window_index(state.marks[m].1).is_none() {
            return Err(InvariantError::MarkPointsToMissing(state.marks[m].0.clone()));
        }
        m = m + 1;
    }
    Ok(())
}

/// The validator reports nothing on a state that holds the invariants and
/// has no visible window both in the scratchpad and on its workspace.
pub proof fn lemma_consistent_state_validates(state: &State)
    requires
        state.wf(),
        state.inv(),
        forall|i: int| 0 <= i < state.windows@.len() ==> !state.scratch_conflict(i),
    ensures
        state.focus.focused_window matches Some(f) ==> state.has_window(f),
        state.focus.focused_workspace matches Some(w) ==> state.has_workspace(w),
        state.first_conflict(0) is None,
        state.first_dangling_mark(0) is None,
{
    lemma_no_conflict(state, 0);
    lemma_no_dangling(state, 0);
}

/// The validator reports nothing on a consistent state whose only possible
/// scratchpad conflicts are windows shown from the scratchpad, when no
/// scratchpad window is currently shown.
pub proof fn lemma_scratch_ok_validates(state: &State, shown: Seq<WindowId>)
    requires
        state.wf(),
        state.inv(),
        state.scratch_ok(shown),
        forall|x: WindowId| state.scratchpad@.contains(x) ==> !shown.contains(x),
    ensures
        state.first_conflict(0) is None,
        state.first_dangling_mark(0) is None,
{
    assert forall|i: int| 0 <= i < state.windows@.len() implies !state.scratch_conflict(i) by {
        if state.scratch_conflict(i) {
            assert(shown.contains(state.windows@[i].id));
        }
    }
    lemma_consistent_state_validates(state);
}

/// Conflicts depend only on the windows, the scratchpad and the workspace
/// lists: a state that keeps those keeps every conflict.
pub proof fn lemma_conflicts_kept(s0: &State, s1: &State)
    requires
        s0.wf(),
        s1.wf(),
        s1.windows == s0.windows,
        s1.scratchpad == s0.scratchpad,
        s1.lists_kept(s0),
    ensures
        forall|i: int| 0 <= i < s0.windows@.len() ==> s1.scratch_conflict(i) == s0.scratch_conflict(i),
        forall|shown: Seq<WindowId>| s0.scratch_ok(shown) ==> s1.scratch_ok(shown),
{
    assert forall|id: WorkspaceId| s1.has_workspace(id) == s0.has_workspace(id) by {
        if s0.has_workspace(id) {
            let j = choose|j: int| 0 <= j < s0.ws_entries().len() && s0.ws_entries()[j].0 == id.0;
            assert(s1.ws_entries()[j].0 == id.0);
        }
        if s1.has_workspace(id) {
            let j = choose|j: int| 0 <= j < s1.ws_entries().len() && s1.ws_entries()[j].0 == id.0;
            assert(s0.ws_entries()[j].0 == id.0);
        }
    }
    assert forall|i: int| 0 <= i < s0.windows@.len() implies s1.scratch_conflict(i) == s0.scratch_conflict(i) by {
        let w = s0.windows@[i];
        if let Some(ws) = w.workspace {
            if s0.has_workspace(ws) {
                let j = choose|j: int| 0 <= j < s0.ws_entries().len() && s0.ws_entries()[j].0 == ws.0;
                crate::tables::lemma_key_index_at(s0.ws_entries(), j);
                crate::tables::lemma_key_index_at(s1.ws_entries(), j);
                assert(s0.ws_index(ws) == Some(j));
                assert(s1.ws_index(ws) == Some(j));
                assert(s1.ws(ws).tiled_windows == s0.ws(ws).tiled_windows);
                assert(s1.ws(ws).floating_windows == s0.ws(ws).floating_windows);
            }
        }
    }
    assert forall|shown: Seq<WindowId>| s0.scratch_ok(shown) implies s1.scratch_ok(shown) by {
        assert forall|i: int| 0 <= i < s1.windows@.len() && #[trigger] s1.scratch_conflict(i)
            implies shown.contains(s1.windows@[i].id) by {
            assert(s0.scratch_conflict(i));
        }
    }
}

/// The same, when windows keep their ids, workspaces and hidden flags and
/// the workspace table is unchanged.
pub proof fn lemma_conflicts_kept_flags(s0: &State, s1: &State)
    requires
        s1.windows@.len() == s0.windows@.len(),
        forall|j: int| 0 <= j < s0.windows@.len() ==> {
            &&& (#[trigger] s1.windows@[j]).id == s0.windows@[j].id
            &&& s1.windows@[j].workspace == s0.windows@[j].workspace
            &&& s1.windows@[j].state.has(WindowState::HIDDEN) == s0.windows@[j].state.has(WindowState::HIDDEN)
        },
        s1.scratchpad == s0.scratchpad,
        s1.workspaces == s0.workspaces,
    ensures
        forall|shown: Seq<WindowId>| s0.scratch_ok(shown) ==> s1.scratch_ok(shown),
{
    assert forall|shown: Seq<WindowId>| s0.scratch_ok(shown) implies s1.scratch_ok(shown) by {
        assert forall|i: int| 0 <= i < s1.windows@.len() && #[trigger] s1.scratch_conflict(i)
            implies shown.contains(s1.windows@[i].id) by {
            assert(s1.ws_entries() == s0.ws_entries());
            assert(s0.scratch_conflict(i));
        }
    }
}

proof fn lemma_no_conflict(state: &State, i: int)
    requires
        0 <= i,
        forall|j: int| 0 <= j < state.windows@.len() ==> !state.scratch_conflict(j),
    ensures
        state.first_conflict(i) is None,
    decreases state.windows@.len() - i,
{
    if i < state.windows@.len() {
        lemma_no_conflict(state, i + 1);
    }
}

proof fn lemma_no_dangling(state: &State, i: int)
    requires
        0 <= i,
        state.inv(),
    ensures
        state.first_dangling_mark(i) is None,
    decreases state.marks@.len() - i,
{
    if i < state.marks@.len() {
        assert(state.has_window(state.marks@[i].1));
        lemma_no_dangling(state, i + 1);
    }
}

impl State {
    /// Validate the core invariants; the result is exactly `validate`'s.
    pub fn validate_invariants(&self) -> (r: Result<(), InvariantError>)
        requires
            self.wf(),
        ensures
            match self.focus.focused_window {
                Some(f) if !self.has_window(f) => r matches Err(InvariantError::FocusedWindowMissing(x)) && x == f,
                _ => match self.focus.focused_workspace {
                    Some(w) if !self.has_workspace(w) => r matches Err(InvariantError::FocusedWorkspaceOutOfRange),
                    _ => match self.first_conflict(0) {
                        Some(i) => r matches Err(InvariantError::WindowInBothWorkspaceAndScratchpad(x)) && x
                            == self.windows@[i].id,
                        None => match self.first_dangling_mark(0) {
                            Some(i) => r matches Err(InvariantError::MarkPointsToMissing(m)) && m@ == self.marks@[i].0@,
                            None => r is Ok,
                        },
                    },
                },
            },
            self.inv() && (forall|i: int| 0 <= i < self.windows@.len() ==> !self.scratch_conflict(i))
                ==> r is Ok,
    {
        proof {
            if self.inv() && (forall|i: int| 0 <= i < self.windows@.len() ==> !self.scratch_conflict(i)) {
                lemma_consistent_state_validates(self);
            }
        }
        validate(self)
    }
}

} // verus!

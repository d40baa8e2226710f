use vstd::prelude::*;
use crate::directory::{last_active, DataView, Handle, WorkspaceData, WorkspaceError, WorkspaceRecord};

verus! {

/// A request to the compositor that a command issues.
#[derive(Clone, Copy, Debug, PartialEq, Eq, Structural)]
pub enum Request {
    /// Activate the workspace of this handle.
    Activate(Handle),
    /// Apply the state changes requested so far.
    Commit,
}

/// What reporting the active workspace gives: its id, or the error where no
/// record carries the active flag.
pub open spec fn active_id(m: DataView) -> Result<usize, WorkspaceError> {
    match last_active(m.records) {
        Some(i) => Ok(m.records[i].id as usize),
        None => Err(WorkspaceError::NoActiveWorkspace),
    }
}

/// What switching to the 1-based `target` issues: activation of that record's
/// handle and then a commit, or the error where `target` is out of range.
pub open spec fn switch_requests(m: DataView, target: i64) -> Result<Seq<Request>, WorkspaceError> {
    if 1 <= target <= m.records.len() {
        Ok(seq![Request::Activate(m.records[target - 1].handle), Request::Commit])
    } else {
        Err(WorkspaceError::IndexOutOfRange)
    }
}

impl WorkspaceData {
    /// The id of the active workspace: the last finalized record whose state
    /// carries the active flag.
    pub fn get_active(&self) -> (r: Result<usize, WorkspaceError>)
        requires
            self.wf(),
            self@.ready,
        ensures
            r == active_id(self@),
    {
        match self.active_index() {
            Some(i) => {
                let records = self.records();
                assert(records@.map_values(|x: WorkspaceRecord| x@)[i as int] == records@[i as int]@);
                Ok(records[i].id)
            },
            None => Err(WorkspaceError::NoActiveWorkspace),
        }
    }

    /// The requests that switch to the workspace of 1-based id `target`.
    pub fn switch(&self, target: i64) -> (r: Result<Vec<Request>, WorkspaceError>)
        requires
            self.wf(),
            self@.ready,
        ensures
            match switch_requests(self@, target) {
                Ok(reqs) => r matches Ok(v) && v@ == reqs,
                Err(e) => r == Err::<Vec<Request>, WorkspaceError>(e),
            },
    {
        let records = self.records();
        if target < 1 || target as u64 > records.len() as u64 {
            return Err(WorkspaceError::IndexOutOfRange);
        }
        let i: usize = (target - 1) as usize;
        assert(records@.map_values(|x: WorkspaceRecord| x@)[i as int] == records@[i as int]@);
        let v = vec![Request::Activate(records[i].handle), Request::Commit];
        assert(v@ =~= seq![Request::Activate(self@.records[target - 1].handle), Request::Commit]);
        Ok(v)
    }
}

} // verus!

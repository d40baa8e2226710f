use vstd::prelude::*;
use crate::state::{resolve_state, resolved, StateFlags};

verus! {

/// A compositor-issued reference to one workspace or workspace group, as the
/// protocol's object id.
#[derive(Clone, Copy, Debug, PartialEq, Eq, Structural)]
pub struct Handle {
    pub id: u32,
}

/// The failures of a synchronization pass and of the commands served from it.
#[derive(Clone, Copy, Debug, PartialEq, Eq, Structural)]
pub enum WorkspaceError {
    /// A state event came with no record pending, a name event came while one
    /// was pending, or a name event came for a handle that was never announced.
    ProtocolOrderingViolation,
    /// A command line that names no known command or no valid index.
    ArgumentError,
    /// A switch target outside `1..=len` of the directory.
    IndexOutOfRange,
    /// No record of the directory carries the active flag.
    NoActiveWorkspace,
    /// The connection to the compositor was lost or sent a malformed message.
    TransportFailure,
}

/// An event addressed to the workspace manager.
#[derive(Clone, Copy, Debug, PartialEq, Eq, Structural)]
pub enum ManagerEvent {
    /// A new workspace handle was announced.
    Workspace(Handle),
    /// A new workspace group handle was announced.
    WorkspaceGroup(Handle),
    /// The end of a synchronization pass.
    Done,
}

/// An event addressed to a workspace handle.
#[derive(Clone, Debug)]
pub enum WorkspaceEvent {
    /// The workspace's name.
    Name(String),
    /// The workspace's raw state flags.
    State(u32),
    /// Any other event of a workspace handle, which the directory ignores.
    Other,
}

/// Either kind of event, in the order the transport delivered them.
#[derive(Clone, Debug)]
pub enum Event {
    Manager(ManagerEvent),
    Workspace(WorkspaceEvent),
}

/// A workspace record under construction: its handle, and its name.
#[derive(Clone, Debug)]
pub struct PendingRecord {
    pub handle: Handle,
    pub name: String,
}

/// A finalized workspace record.
#[derive(Clone, Debug)]
pub struct WorkspaceRecord {
    pub handle: Handle,
    pub name: String,
    /// The 1-based position of the workspace in discovery order.
    pub id: usize,
    /// The resolved flags, or `None` where the raw value did not resolve.
    pub state: Option<StateFlags>,
}

/// The mathematical value of a workspace record.
pub struct RecordView {
    pub handle: Handle,
    pub name: Seq<char>,
    pub id: nat,
    pub state: Option<StateFlags>,
}

impl View for WorkspaceRecord {
    type V = RecordView;

    open spec fn view(&self) -> RecordView {
        RecordView { handle: self.handle, name: self.name@, id: self.id as nat, state: self.state }
    }
}

/// The mathematical value of the whole correlation state.
pub struct DataView {
    /// Announced workspace handles, in discovery order.
    pub handles: Seq<Handle>,
    /// The last announced workspace group.
    pub group: Option<Handle>,
    /// Whether the end of the synchronization pass was seen.
    pub ready: bool,
    /// The record whose name came and whose state has not yet come.
    pub pending: Option<(Handle, Seq<char>)>,
    /// Finalized records, in discovery order.
    pub records: Seq<RecordView>,
    /// The index in `records` of the active record.
    pub active: Option<int>,
}

pub open spec fn record_is_active(r: RecordView) -> bool {
    match r.state {
        Some(f) => f.has_active(),
        None => false,
    }
}

/// The index of the last record that carries the active flag.
pub open spec fn last_active(records: Seq<RecordView>) -> Option<int>
    decreases records.len(),
{
    if records.len() == 0 {
        None
    } else if record_is_active(records.last()) {
        Some(records.len() - 1)
    } else {
        last_active(records.drop_last())
    }
}

/// The state of a fresh pass: nothing announced, nothing finalized.
pub open spec fn empty_view() -> DataView {
    DataView {
        handles: Seq::empty(),
        group: None,
        ready: false,
        pending: None,
        records: Seq::empty(),
        active: None,
    }
}

/// The invariants of the correlation state: every record comes from the
/// announced handle at its own position, ids are dense from 1, a pending
/// record refers to the next announced handle, and the active reference is
/// the last record that carries the active flag.
pub open spec fn wf_view(m: DataView) -> bool {
    &&& m.records.len() <= m.handles.len()
    &&& forall|i: int|
        0 <= i < m.records.len() ==> (#[trigger] m.records[i]).handle == m.handles[i]
            && m.records[i].id == i + 1
    &&& m.pending matches Some(p) ==> m.records.len() < m.handles.len() && p.0
        == m.handles[m.records.len() as int]
    &&& m.active == last_active(m.records)
}

/// What a manager event does to the state.
pub open spec fn manager_step(m: DataView, e: ManagerEvent) -> DataView {
    match e {
        ManagerEvent::Workspace(h) => DataView { handles: m.handles.push(h), ..m },
        ManagerEvent::WorkspaceGroup(h) => DataView { group: Some(h), ..m },
        ManagerEvent::Done => DataView { ready: true, ..m },
    }
}

/// The record that a state event with payload `raw` finalizes from `p`.
pub open spec fn finalized(m: DataView, p: (Handle, Seq<char>), raw: u32) -> RecordView {
    RecordView { handle: p.0, name: p.1, id: m.records.len() + 1, state: resolved(raw) }
}

/// What a workspace event does to the state: a name opens a record for the
/// next announced handle, a state event finalizes the open record.
pub open spec fn workspace_step(m: DataView, e: WorkspaceEvent) -> Result<DataView, WorkspaceError> {
    match e {
        WorkspaceEvent::Name(name) => {
            if m.pending is Some || m.records.len() >= m.handles.len() {
                Err(WorkspaceError::ProtocolOrderingViolation)
            } else {
                Ok(
                    DataView {
                        pending: Some((m.handles[m.records.len() as int], name@)),
                        ..m
                    },
                )
            }
        },
        WorkspaceEvent::State(raw) => {
            match m.pending {
                None => Err(WorkspaceError::ProtocolOrderingViolation),
                Some(p) => {
                    let r = finalized(m, p, raw);
                    Ok(
                        DataView {
                            pending: None,
                            records: m.records.push(r),
                            active: if record_is_active(r) {
                                Some(m.records.len() as int)
                            } else {
                                m.active
                            },
                            ..m
                        },
                    )
                },
            }
        },
        WorkspaceEvent::Other => Ok(m),
    }
}

pub open spec fn event_step(m: DataView, e: Event) -> Result<DataView, WorkspaceError> {
    match e {
        Event::Manager(me) => Ok(manager_step(m, me)),
        Event::Workspace(we) => workspace_step(m, we),
    }
}

/// The state after a sequence of events, or the first error it raises.
pub open spec fn run(m: DataView, events: Seq<Event>) -> Result<DataView, WorkspaceError>
    decreases events.len(),
{
    if events.len() == 0 {
        Ok(m)
    } else {
        match event_step(m, events[0]) {
            Ok(m2) => run(m2, events.drop_first()),
            Err(e) => Err(e),
        }
    }
}

proof fn lemma_last_active_push(records: Seq<RecordView>, r: RecordView)
    ensures
        last_active(records.push(r)) == if record_is_active(r) {
            Some(records.len() as int)
        } else {
            last_active(records)
        },
{
    assert(records.push(r).drop_last() =~= records);
}

/// The last active record is a record of the sequence that carries the
/// active flag, and no later record carries it.
pub proof fn lemma_last_active_is_last(records: Seq<RecordView>)
    ensures
        last_active(records) matches Some(i) ==> 0 <= i < records.len() && record_is_active(
            records[i],
        ) && forall|j: int| i < j < records.len() ==> !record_is_active(#[trigger] records[j]),
        last_active(records) is None ==> forall|j: int|
            0 <= j < records.len() ==> !record_is_active(#[trigger] records[j]),
    decreases records.len(),
{
    if records.len() > 0 && !record_is_active(records.last()) {
        lemma_last_active_is_last(records.drop_last());
        assert forall|j: int| 0 <= j < records.len() - 1 implies records[j]
            == records.drop_last()[j] by {}
    }
}

/// Every event that is accepted keeps the invariants.
pub proof fn lemma_step_keeps_wf(m: DataView, e: Event)
    requires
        wf_view(m),
    ensures
        event_step(m, e) matches Ok(m2) ==> wf_view(m2),
{
    if let Event::Workspace(WorkspaceEvent::State(raw)) = e {
        if let Some(p) = m.pending {
            lemma_last_active_push(m.records, finalized(m, p, raw));
        }
    }
}

/// Workspace announcements, workspace groups and the end of a pass, as seen by
/// the library, with the records assembled from them.
pub struct WorkspaceData {
    handles: Vec<Handle>,
    group: Option<Handle>,
    ready: bool,
    pending: Option<PendingRecord>,
    records: Vec<WorkspaceRecord>,
    active: Option<usize>,
}

impl View for WorkspaceData {
    type V = DataView;

    closed spec fn view(&self) -> DataView {
        DataView {
            handles: self.handles@,
            group: self.group,
            ready: self.ready,
            pending: match self.pending {
                Some(p) => Some((p.handle, p.name@)),
                None => None,
            },
            records: self.records@.map_values(|r: WorkspaceRecord| r@),
            active: match self.active {
                Some(i) => Some(i as int),
                None => None,
            },
        }
    }
}

impl WorkspaceData {
    pub open spec fn wf(&self) -> bool {
        wf_view(self@)
    }

    pub fn new() -> (r: Self)
        ensures
            r@ == empty_view(),
            r.wf(),
    {
        let r = WorkspaceData {
            handles: Vec::new(),
            group: None,
            ready: false,
            pending: None,
            records: Vec::new(),
            active: None,
        };
        assert(r@.records =~= Seq::<RecordView>::empty());
        r
    }

    /// Handles an event of the workspace manager.
    pub fn manager_event(&mut self, e: ManagerEvent)
        requires
            old(self).wf(),
        ensures
            final(self)@ == manager_step(old(self)@, e),
            final(self).wf(),
    {
        match e {
            ManagerEvent::Workspace(h) => self.handles.push(h),
            ManagerEvent::WorkspaceGroup(h) => self.group = Some(h),
            ManagerEvent::Done => self.ready = true,
        }
        proof {
            lemma_step_keeps_wf(old(self)@, Event::Manager(e));
        }
    }

    /// Handles an event of a workspace handle, pairing each name with the
    /// state event that follows it into one record.
    pub fn workspace_event(&mut self, e: &WorkspaceEvent) -> (r: Result<(), WorkspaceError>)
        requires
            old(self).wf(),
        ensures
            match workspace_step(old(self)@, *e) {
                Ok(m) => r is Ok && final(self)@ == m,
                Err(err) => r == Err::<(), WorkspaceError>(err),
            },
            final(self).wf(),
    {
        proof {
            lemma_step_keeps_wf(self@, Event::Workspace(*e));
        }
        match e {
            WorkspaceEvent::Name(name) => {
                if self.pending.is_some() || self.records.len() >= self.handles.len() {
                    return Err(WorkspaceError::ProtocolOrderingViolation);
                }
                let handle = self.handles[self.records.len()];
                self.pending = Some(PendingRecord { handle, name: name.clone() });
                Ok(())
            },
            WorkspaceEvent::State(raw) => {
                let ghost m = self@;
                match self.pending.take() {
                    None => Err(WorkspaceError::ProtocolOrderingViolation),
                    Some(p) => {
                        let ghost before = self@.records;
                        let state = resolve_state(*raw);
                        let index: usize = self.records.len();
                        assert(m.pending is Some);
                        assert(index < self.handles.len());
                        let active = match state {
                            Some(f) => f.is_active(),
                            None => false,
                        };
                        self.records.push(
                            WorkspaceRecord { handle: p.handle, name: p.name, id: index + 1, state },
                        );
                        if active {
                            self.active = Some(index);
                        }
                        assert(self@.records =~= before.push(self.records@[index as int]@));
                        Ok(())
                    },
                }
            },
            WorkspaceEvent::Other => Ok(()),
        }
    }

    /// Handles one event of either kind.
    pub fn event(&mut self, e: &Event) -> (r: Result<(), WorkspaceError>)
        requires
            old(self).wf(),
        ensures
            match event_step(old(self)@, *e) {
                Ok(m) => r is Ok && final(self)@ == m,
                Err(err) => r == Err::<(), WorkspaceError>(err),
            },
            final(self).wf(),
    {
        match e {
            Event::Manager(me) => {
                self.manager_event(*me);
                Ok(())
            },
            Event::Workspace(we) => self.workspace_event(we),
        }
    }

    /// Handles a sequence of events in order, stopping at the first error.
    pub fn process(&mut self, events: &Vec<Event>) -> (r: Result<(), WorkspaceError>)
        requires
            old(self).wf(),
        ensures
            match run(old(self)@, events@) {
                Ok(m) => r is Ok && final(self)@ == m,
                Err(err) => r == Err::<(), WorkspaceError>(err),
            },
            final(self).wf(),
    {
        let mut i: usize = 0;
        assert(events@.skip(0) =~= events@);
        while i < events.len()
            invariant
                self.wf(),
                i <= events@.len(),
                run(old(self)@, events@) == run(self@, events@.skip(i as int)),
            decreases events@.len() - i,
        {
            let ghost rest = events@.skip(i as int);
            assert(rest[0] == events@[i as int]);
            assert(rest.drop_first() =~= events@.skip(i + 1));
            match self.event(&events[i]) {
                Ok(()) => {},
                Err(err) => {
                    return Err(err);
                },
            }
            i = i + 1;
        }
        assert(events@.skip(i as int) =~= Seq::<Event>::empty());
        Ok(())
    }

    /// The finalized records, in discovery order.
    pub fn records(&self) -> (r: &Vec<WorkspaceRecord>)
        ensures
            r@.map_values(|x: WorkspaceRecord| x@) == self@.records,
    {
        &self.records
    }

    /// The index in `records` of the active record.
    pub fn active_index(&self) -> (r: Option<usize>)
        requires
            self.wf(),
        ensures
            r matches Some(i) ==> i < self@.records.len(),
            r matches Some(i) ==> self@.active == Some(i as int),
            r is None ==> self@.active is None,
    {
        proof {
            lemma_last_active_is_last(self@.records);
        }
        self.active
    }

    /// Whether the end of the synchronization pass was seen.
    pub fn is_ready(&self) -> (r: bool)
        ensures
            r == self@.ready,
    {
        self.ready
    }

    /// The last announced workspace group.
    pub fn group(&self) -> (r: Option<Handle>)
        ensures
            r == self@.group,
    {
        self.group
    }
}

} // verus!

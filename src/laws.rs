use vstd::prelude::*;
use crate::command::active_id;
use crate::directory::{
    empty_view, event_step, lemma_last_active_is_last, lemma_step_keeps_wf, record_is_active,
    run, wf_view, workspace_step, DataView, Event, Handle, ManagerEvent, RecordView,
    WorkspaceError, WorkspaceEvent,
};
use crate::state::resolved;

verus! {

/// For each workspace in turn: its announcement, its name, then its state.
pub open spec fn announced_in_turn(hs: Seq<Handle>, names: Seq<String>, raws: Seq<u32>) -> Seq<
    Event,
>
    decreases hs.len(),
{
    if hs.len() == 0 || names.len() == 0 || raws.len() == 0 {
        Seq::empty()
    } else {
        seq![
            Event::Manager(ManagerEvent::Workspace(hs[0])),
            Event::Workspace(WorkspaceEvent::Name(names[0])),
            Event::Workspace(WorkspaceEvent::State(raws[0])),
        ] + announced_in_turn(hs.drop_first(), names.drop_first(), raws.drop_first())
    }
}

proof fn lemma_run_concat(m: DataView, a: Seq<Event>, b: Seq<Event>)
    ensures
        run(m, a + b) == match run(m, a) {
            Ok(m2) => run(m2, b),
            Err(e) => Err(e),
        },
    decreases a.len(),
{
    if a.len() == 0 {
        assert(a + b =~= b);
    } else {
        assert((a + b)[0] == a[0]);
        assert((a + b).drop_first() =~= a.drop_first() + b);
        if let Ok(m2) = event_step(m, a[0]) {
            lemma_run_concat(m2, a.drop_first(), b);
        }
    }
}

proof fn lemma_run_in_turn(m: DataView, hs: Seq<Handle>, names: Seq<String>, raws: Seq<u32>)
    requires
        hs.len() == names.len() == raws.len(),
        m.pending is None,
        m.records.len() == m.handles.len(),
    ensures
        run(m, announced_in_turn(hs, names, raws)) matches Ok(m2) && m2.pending is None
            && m2.handles == m.handles + hs && m2.records.len() == m.records.len() + hs.len()
            && (forall|k: int| 0 <= k < m.records.len() ==> m2.records[k] == m.records[k]) && (
        forall|i: int|
            0 <= i < hs.len() ==> m2.records[m.records.len() + i] == (RecordView {
                handle: hs[i],
                name: names[i]@,
                id: (m.records.len() + i + 1) as nat,
                state: resolved(raws[i]),
            })),
    decreases hs.len(),
{
    let evs = announced_in_turn(hs, names, raws);
    if hs.len() == 0 {
        assert(m.handles + hs =~= m.handles);
    } else {
        let e0 = Event::Manager(ManagerEvent::Workspace(hs[0]));
        let e1 = Event::Workspace(WorkspaceEvent::Name(names[0]));
        let e2 = Event::Workspace(WorkspaceEvent::State(raws[0]));
        let head = seq![e0, e1, e2];
        let (hs1, names1, raws1) = (hs.drop_first(), names.drop_first(), raws.drop_first());
        lemma_run_concat(m, head, announced_in_turn(hs1, names1, raws1));
        assert(head.drop_first() =~= seq![e1, e2]);
        assert(seq![e1, e2].drop_first() =~= seq![e2]);
        assert(seq![e2].drop_first() =~= Seq::<Event>::empty());
        let ma = event_step(m, e0)->Ok_0;
        let mb = event_step(ma, e1)->Ok_0;
        let mc = event_step(mb, e2)->Ok_0;
        assert(event_step(m, e0) is Ok);
        assert(event_step(ma, e1) is Ok);
        assert(event_step(mb, e2) is Ok);
        assert(run(mc, Seq::<Event>::empty()) == Ok::<DataView, WorkspaceError>(mc));
        assert(run(mb, seq![e2]) == run(mc, Seq::<Event>::empty()));
        assert(run(ma, seq![e1, e2]) == run(mb, seq![e2]));
        assert(run(m, head) == run(ma, seq![e1, e2]));
        lemma_run_in_turn(mc, hs1, names1, raws1);
        let m2 = run(mc, announced_in_turn(hs1, names1, raws1))->Ok_0;
        assert(m2.handles =~= m.handles + hs);
        assert forall|i: int| 0 <= i < hs.len() implies m2.records[m.records.len() + i]
            == (RecordView {
            handle: hs[i],
            name: names[i]@,
            id: (m.records.len() + i + 1) as nat,
            state: resolved(raws[i]),
        }) by {
            if i > 0 {
                assert(hs1[i - 1] == hs[i]);
                assert(names1[i - 1] == names[i]);
                assert(raws1[i - 1] == raws[i]);
            }
        }
    }
}

/// Each of N announced workspaces, followed in turn by its name and then its
/// state, yields exactly one record: N records, with ids 1 to N, in the order
/// of announcement, each with its own handle, name and resolved state.
pub proof fn lemma_pairing_complete(hs: Seq<Handle>, names: Seq<String>, raws: Seq<u32>)
    requires
        hs.len() == names.len() == raws.len(),
    ensures
        run(empty_view(), announced_in_turn(hs, names, raws)) matches Ok(m) && m.records.len()
            == hs.len() && forall|i: int|
            0 <= i < hs.len() ==> (#[trigger] m.records[i]) == (RecordView {
                handle: hs[i],
                name: names[i]@,
                id: (i + 1) as nat,
                state: resolved(raws[i]),
            }),
{
    lemma_run_in_turn(empty_view(), hs, names, raws);
    let m = run(empty_view(), announced_in_turn(hs, names, raws))->Ok_0;
    assert forall|i: int| 0 <= i < hs.len() implies #[trigger] m.records[i] == (RecordView {
        handle: hs[i],
        name: names[i]@,
        id: (i + 1) as nat,
        state: resolved(raws[i]),
    }) by {
        assert(m.records[0 + i] == m.records[i]);
    }
}

/// A second name that comes before the state of the first is an ordering
/// violation: it never replaces the record being built.
pub proof fn lemma_second_name_rejected(m: DataView, first: String, second: String)
    ensures
        workspace_step(m, WorkspaceEvent::Name(first)) matches Ok(m2) ==> workspace_step(
            m2,
            WorkspaceEvent::Name(second),
        ) == Err::<DataView, WorkspaceError>(WorkspaceError::ProtocolOrderingViolation),
{
}

/// Every state reached by accepted events from a fresh pass keeps the
/// invariants.
pub proof fn lemma_run_keeps_wf(m: DataView, events: Seq<Event>)
    requires
        wf_view(m),
    ensures
        run(m, events) matches Ok(m2) ==> wf_view(m2),
    decreases events.len(),
{
    if events.len() > 0 {
        lemma_step_keeps_wf(m, events[0]);
        if let Ok(m1) = event_step(m, events[0]) {
            lemma_run_keeps_wf(m1, events.drop_first());
        }
    }
}

/// After any accepted sequence of events, the active reference is the last
/// finalized record that carries the active flag: reporting gives its id,
/// a later active record wins over an earlier one, and with no active record
/// reporting fails with `NoActiveWorkspace`.
pub proof fn lemma_active_resolution(events: Seq<Event>)
    ensures
        run(empty_view(), events) matches Ok(m) ==> {
            &&& (forall|j: int| 0 <= j < m.records.len() ==> !record_is_active(#[trigger] m.records[j]))
                ==> m.active is None && active_id(m) == Err::<usize, WorkspaceError>(
                WorkspaceError::NoActiveWorkspace,
            )
            &&& forall|i: int|
                0 <= i < m.records.len() && record_is_active(#[trigger] m.records[i]) && (forall|
                    j: int,
                | i < j < m.records.len() ==> !record_is_active(m.records[j])) ==> m.active
                    == Some(i) && active_id(m) == Ok::<usize, WorkspaceError>((i + 1) as usize)
        },
{
    lemma_run_keeps_wf(empty_view(), events);
    if let Ok(m) = run(empty_view(), events) {
        lemma_last_active_is_last(m.records);
    }
}

} // verus!

use cosmo_workspace::{
    is_manager_interface, resolve_state, Event, Handle, ManagerEvent, Request, StateFlags, WorkspaceData,
    WorkspaceError, WorkspaceEvent, ACTIVE, HIDDEN, URGENT,
};

fn announce(id: u32) -> Event {
    Event::Manager(ManagerEvent::Workspace(Handle { id }))
}

fn named(name: &str) -> Event {
    Event::Workspace(WorkspaceEvent::Name(name.to_string()))
}

fn state(raw: u32) -> Event {
    Event::Workspace(WorkspaceEvent::State(raw))
}

fn done() -> Event {
    Event::Manager(ManagerEvent::Done)
}

/// Announces each workspace, then sends its name and state, then ends the pass.
fn synced(workspaces: &[(u32, &str, u32)]) -> WorkspaceData {
    let mut data = WorkspaceData::new();
    let mut events = Vec::new();
    for (id, name, raw) in workspaces {
        events.push(announce(*id));
        events.push(named(name));
        events.push(state(*raw));
    }
    events.push(done());
    assert_eq!(data.process(&events), Ok(()));
    data
}

#[test]
fn pairing_completeness() {
    let data = synced(&[
        (10, "a", 0),
        (11, "b", HIDDEN),
        (12, "c", URGENT),
        (13, "d", 0),
        (14, "e", HIDDEN),
    ]);
    let records = data.records();
    assert_eq!(records.len(), 5);
    let names = ["a", "b", "c", "d", "e"];
    for (i, r) in records.iter().enumerate() {
        assert_eq!(r.id, i + 1);
        assert_eq!(r.handle, Handle { id: 10 + i as u32 });
        assert_eq!(r.name, names[i]);
    }
}

#[test]
fn pairing_after_all_announcements() {
    let mut data = WorkspaceData::new();
    let events = vec![
        announce(7),
        announce(8),
        named("x"),
        state(ACTIVE),
        named("y"),
        state(0),
        done(),
    ];
    assert_eq!(data.process(&events), Ok(()));
    let records = data.records();
    assert_eq!(records.len(), 2);
    assert_eq!((records[0].handle.id, records[0].id, records[0].name.as_str()), (7, 1, "x"));
    assert_eq!((records[1].handle.id, records[1].id, records[1].name.as_str()), (8, 2, "y"));
}

#[test]
fn second_name_is_ordering_violation() {
    let mut data = WorkspaceData::new();
    let events = vec![announce(1), announce(2), named("first"), named("second")];
    assert_eq!(data.process(&events), Err(WorkspaceError::ProtocolOrderingViolation));
    assert_eq!(data.records().len(), 0);
}

#[test]
fn state_without_name_is_ordering_violation() {
    let mut data = WorkspaceData::new();
    data.manager_event(ManagerEvent::Workspace(Handle { id: 1 }));
    assert_eq!(
        data.workspace_event(&WorkspaceEvent::State(ACTIVE)),
        Err(WorkspaceError::ProtocolOrderingViolation)
    );
    assert_eq!(data.records().len(), 0);
}

#[test]
fn name_without_announcement_is_ordering_violation() {
    let mut data = WorkspaceData::new();
    assert_eq!(
        data.workspace_event(&WorkspaceEvent::Name("lost".to_string())),
        Err(WorkspaceError::ProtocolOrderingViolation)
    );
}

#[test]
fn process_stops_at_first_error() {
    let mut data = WorkspaceData::new();
    let events = vec![announce(1), state(ACTIVE), named("never"), done()];
    assert_eq!(data.process(&events), Err(WorkspaceError::ProtocolOrderingViolation));
    assert!(!data.is_ready());
}

#[test]
fn other_workspace_events_are_ignored() {
    let mut data = WorkspaceData::new();
    let events = vec![
        announce(1),
        Event::Workspace(WorkspaceEvent::Other),
        named("one"),
        Event::Workspace(WorkspaceEvent::Other),
        state(ACTIVE),
        done(),
    ];
    assert_eq!(data.process(&events), Ok(()));
    assert_eq!(data.records().len(), 1);
    assert_eq!(data.get_active(), Ok(1));
}

#[test]
fn unresolved_state_still_finalized() {
    let data = synced(&[(1, "odd", 8 | ACTIVE), (2, "plain", HIDDEN)]);
    let records = data.records();
    assert_eq!(records.len(), 2);
    assert_eq!(records[0].state, None);
    assert_eq!(records[1].state, Some(StateFlags { bits: HIDDEN }));
    assert_eq!(data.get_active(), Err(WorkspaceError::NoActiveWorkspace));
}

#[test]
fn active_resolution() {
    let data = synced(&[(1, "a", HIDDEN), (2, "b", ACTIVE | URGENT), (3, "c", 0)]);
    assert_eq!(data.active_index(), Some(1));
    assert_eq!(data.get_active(), Ok(2));
}

#[test]
fn no_active_workspace() {
    let data = synced(&[(1, "a", HIDDEN), (2, "b", URGENT)]);
    assert_eq!(data.active_index(), None);
    assert_eq!(data.get_active(), Err(WorkspaceError::NoActiveWorkspace));
}

#[test]
fn no_workspaces_at_all() {
    let data = synced(&[]);
    assert_eq!(data.get_active(), Err(WorkspaceError::NoActiveWorkspace));
    assert_eq!(data.switch(1), Err(WorkspaceError::IndexOutOfRange));
}

#[test]
fn later_active_wins() {
    let data = synced(&[(1, "a", ACTIVE), (2, "b", 0), (3, "c", ACTIVE), (4, "d", HIDDEN)]);
    assert_eq!(data.get_active(), Ok(3));
}

#[test]
fn switch_bounds() {
    let data = synced(&[(21, "a", ACTIVE), (22, "b", 0), (23, "c", 0), (24, "d", 0)]);
    assert_eq!(
        data.switch(1),
        Ok(vec![Request::Activate(Handle { id: 21 }), Request::Commit])
    );
    assert_eq!(
        data.switch(4),
        Ok(vec![Request::Activate(Handle { id: 24 }), Request::Commit])
    );
    assert_eq!(data.switch(0), Err(WorkspaceError::IndexOutOfRange));
    assert_eq!(data.switch(5), Err(WorkspaceError::IndexOutOfRange));
    assert_eq!(data.switch(-1), Err(WorkspaceError::IndexOutOfRange));
    assert_eq!(data.switch(i64::MAX), Err(WorkspaceError::IndexOutOfRange));
}

#[test]
fn idempotent_get_active() {
    let data = synced(&[(1, "a", 0), (2, "b", ACTIVE)]);
    let first = data.get_active();
    let second = data.get_active();
    assert_eq!(first, Ok(2));
    assert_eq!(first, second);
}

#[test]
fn end_to_end_scenario() {
    let data = synced(&[(101, "Main", HIDDEN), (102, "Web", ACTIVE), (103, "Chat", HIDDEN)]);
    assert!(data.is_ready());
    let records = data.records();
    assert_eq!(records.len(), 3);
    let expected = [("Main", HIDDEN, 101), ("Web", ACTIVE, 102), ("Chat", HIDDEN, 103)];
    for (i, (name, raw, handle)) in expected.iter().enumerate() {
        assert_eq!(records[i].id, i + 1);
        assert_eq!(records[i].name, *name);
        assert_eq!(records[i].state, Some(StateFlags { bits: *raw }));
        assert_eq!(records[i].handle, Handle { id: *handle });
    }
    assert!(records[0].state.unwrap().is_hidden());
    assert!(records[1].state.unwrap().is_active());
    assert_eq!(data.active_index(), Some(1));
    assert_eq!(format!("{}", data.get_active().unwrap()), "2");
    assert_eq!(
        data.switch(1),
        Ok(vec![Request::Activate(Handle { id: 101 }), Request::Commit])
    );
}

#[test]
fn group_is_last_write_wins() {
    let mut data = WorkspaceData::new();
    assert_eq!(data.group(), None);
    data.manager_event(ManagerEvent::WorkspaceGroup(Handle { id: 3 }));
    data.manager_event(ManagerEvent::WorkspaceGroup(Handle { id: 4 }));
    assert_eq!(data.group(), Some(Handle { id: 4 }));
    assert!(!data.is_ready());
    data.manager_event(ManagerEvent::Done);
    assert!(data.is_ready());
}

#[test]
fn resolve_known_and_unknown_bits() {
    assert_eq!(resolve_state(0), Some(StateFlags { bits: 0 }));
    assert_eq!(resolve_state(ACTIVE | HIDDEN), Some(StateFlags { bits: 5 }));
    assert_eq!(resolve_state(7), Some(StateFlags { bits: 7 }));
    assert_eq!(resolve_state(8), None);
    assert_eq!(resolve_state(9), None);
    assert_eq!(resolve_state(u32::MAX), None);
}

#[test]
fn state_flag_queries() {
    let f = StateFlags { bits: ACTIVE | URGENT };
    assert!(f.is_active());
    assert!(f.is_urgent());
    assert!(!f.is_hidden());
    let g = StateFlags { bits: HIDDEN };
    assert!(!g.is_active());
    assert!(!g.is_urgent());
    assert!(g.is_hidden());
}

#[test]
fn binds_only_the_workspace_manager() {
    assert!(is_manager_interface(&"ext_workspace_manager_v1".to_string()));
    assert!(!is_manager_interface(&"wl_compositor".to_string()));
    assert!(!is_manager_interface(&"ext_workspace_manager_v2".to_string()));
    assert!(!is_manager_interface(&String::new()));
}

#[test]
fn flag_bits_of_the_protocol() {
    assert_eq!((ACTIVE, URGENT, HIDDEN), (1, 2, 4));
}

//! Correlation of the asynchronous workspace events of a compositor into an
//! ordered directory of workspace records, and the commands served from it.

mod command;
mod directory;
mod laws;
mod registry;
mod state;

pub use command::{active_id, switch_requests, Request};
pub use directory::{
    empty_view, event_step, last_active, manager_step, record_is_active, run, wf_view,
    workspace_step, DataView, Event, Handle, ManagerEvent, PendingRecord, RecordView,
    WorkspaceData, WorkspaceError, WorkspaceEvent, WorkspaceRecord,
};
pub use laws::{
    announced_in_turn, lemma_active_resolution, lemma_pairing_complete, lemma_run_keeps_wf,
    lemma_second_name_rejected,
};
pub use registry::{is_manager_interface, manager_interface};
pub use state::{resolve_state, StateFlags, ACTIVE, HIDDEN, URGENT};

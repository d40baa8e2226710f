use vstd::prelude::*;

verus! {

/// The interface name under which the compositor advertises the workspace
/// manager global.
pub open spec fn manager_interface() -> Seq<char> {
    "ext_workspace_manager_v1"@
}

/// Whether an advertised global is the workspace manager, the one global that
/// is bound.
pub fn is_manager_interface(interface: &String) -> (r: bool)
    ensures
        r == (interface@ == manager_interface()),
{
    let manager = "ext_workspace_manager_v1".to_owned();
    *interface == manager
}

} // verus!

use vstd::prelude::*;
use wayland_client::WEnum;
use wayland_protocols::ext::workspace::v1::client::ext_workspace_handle_v1::State;

verus! {

/// The flag bit of an active workspace.
pub const ACTIVE: u32 = 1;

/// The flag bit of a workspace that requests attention.
pub const URGENT: u32 = 2;

/// The flag bit of a workspace that is not visible in its group.
pub const HIDDEN: u32 = 4;

/// The set of state flags that a workspace carries, as the protocol's bits.
#[derive(Clone, Copy, Debug, PartialEq, Eq, Structural)]
pub struct StateFlags {
    pub bits: u32,
}

/// The flags that the protocol defines are 1, 2 and 4, so a raw value names
/// only known flags exactly when it is below 8.
pub open spec fn known_bits(raw: u32) -> bool {
    raw < 8
}

/// What the raw value of a state event resolves to: the flags it names, or
/// nothing where it holds a bit that the protocol does not define.
pub open spec fn resolved(raw: u32) -> Option<StateFlags> {
    if known_bits(raw) {
        Some(StateFlags { bits: raw })
    } else {
        None
    }
}

impl StateFlags {
    pub open spec fn has_active(self) -> bool {
        self.bits & ACTIVE != 0
    }

    pub open spec fn has_urgent(self) -> bool {
        self.bits & URGENT != 0
    }

    pub open spec fn has_hidden(self) -> bool {
        self.bits & HIDDEN != 0
    }

    pub fn is_active(&self) -> (r: bool)
        ensures
            r == self.has_active(),
    {
        self.bits & ACTIVE != 0
    }

    pub fn is_urgent(&self) -> (r: bool)
        ensures
            r == self.has_urgent(),
    {
        self.bits & URGENT != 0
    }

    pub fn is_hidden(&self) -> (r: bool)
        ensures
            r == self.has_hidden(),
    {
        self.bits & HIDDEN != 0
    }
}

/// Relies on `WEnum::<State>::from` and `WEnum::into_result` of wayland-client:
/// a raw value converts through the generated `State::from_bits`, which keeps
/// it exactly when every bit is one of the defined flags (1, 2, 4); the
/// generated `From<State> for u32` gives the bits back.
#[verifier::external_body]
fn known_state_bits(raw: u32) -> (r: Option<u32>)
    ensures
        r == (if known_bits(raw) { Some(raw) } else { None::<u32> }),
{
    WEnum::<State>::from(raw).into_result().ok().map(u32::from)
}

/// Resolves the raw payload of a state event into a flag set.
pub fn resolve_state(raw: u32) -> (r: Option<StateFlags>)
    ensures
        r == resolved(raw),
{
    match known_state_bits(raw) {
        Some(bits) => Some(StateFlags { bits }),
        None => None,
    }
}

} // verus!

//! Plain data shapes shared with the host.

use vstd::prelude::*;

verus! {

/// A handle identifying a loaded asset.
#[derive(Clone, Copy, PartialEq, Eq, Structural, Debug)]
pub struct AssetId(pub u32);

/// A handle identifying an entity. The handle is itself treated as a
/// component for lookup purposes.
#[derive(Clone, Copy, PartialEq, Eq, Structural, Debug)]
pub struct EntityId(pub u64);

/// The state of one key or button within a frame.
#[derive(Clone, Copy, PartialEq, Eq, Structural, Debug, Default)]
pub struct ButtonState {
    pub pressed: bool,
    pub pressed_this_frame: bool,
    pub released_this_frame: bool,
}

/// A unique touch identifier.
pub type TouchId = usize;

/// The lifecycle phase of one touch.
#[derive(Clone, Copy, PartialEq, Eq, Structural, Debug)]
pub enum TouchPhase {
    Began,
    Moved,
    Stationary,
    Ended,
}

/// A component referencing a moveable static mesh by its asset handle.
#[derive(Clone, Copy, PartialEq, Eq, Structural, Debug)]
pub struct DynamicStaticMesh {
    pub asset_id: AssetId,
}

/// A component seeding the noise-driven movement of one computer-controlled
/// tank.
#[derive(Clone, Copy, PartialEq, Eq, Structural, Debug)]
pub struct AiTank {
    pub id: u32,
}

} // verus!

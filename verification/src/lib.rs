//! Binding layer between a gameplay module and an external host engine.
//!
//! The module describes itself to the host through a descriptor model: which
//! data shapes are components or resources, which functions are one-shot or
//! per-frame systems, and how each system parameter is accessed (directly or
//! through a multi-component query). The host enumerates that model at load
//! time, assigns numeric identities, registers its callbacks, and then drives
//! the frame loop through a flat, pointer-based dispatch surface.

pub mod abi;
pub mod callbacks;
pub mod components;
pub mod descriptor;
pub mod dispatch;
pub mod engine;
pub mod names;
pub mod query;
pub mod reflection;
pub mod registry;
pub mod version;

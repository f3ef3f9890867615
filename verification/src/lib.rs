//! The shared modding ABI of the engine and its mods — descriptor data, the
//! interning rule that gives names their handles, the id-remap walk adoption
//! runs, and the guest-side authoring helpers built on top of them.

pub mod scalar;
pub mod ids;
pub mod bridge;
pub mod interner;
pub mod names;
pub mod params;
pub mod stats;
pub mod text;
pub mod common;
pub mod math;
pub mod conditions;
pub mod slot_ref;
pub mod impacts;
pub mod missiles;
pub mod behaviors;
pub mod triggers;
pub mod abilities;
pub mod attacks;
pub mod tasks;
pub mod talent_tree;
pub mod talents;
pub mod descriptors;
pub mod runtime;
pub mod navmesh;
pub mod placement;
pub mod remap;
pub mod animation;
pub mod notify;
pub mod ui_event;
pub mod ui_anim;
pub mod ui;
pub mod progression;
pub mod respawn;
pub mod context;
pub mod balance;
pub mod quests;
pub mod handlers;
pub mod dispatch;
pub mod widgets;
pub mod manifest;

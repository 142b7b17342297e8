//! Two FRAME-style kitty pallets, modelled as verified state machines.
//!
//! Each pallet keeps its storage in a plain value (`Pallet`) whose view is a
//! map-based model; every dispatchable is a method on that value whose
//! contract states the new storage and the result exactly.

pub mod origin;
pub mod assoc;
pub mod codec;
pub mod kitties_v2;
pub mod exercise;
pub mod weights;

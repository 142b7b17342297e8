//! The kitties pallet: kitties are created with a random DNA, owned by the
//! account that created them, and transferred between accounts.
//!
//! Every dispatchable is transactional: when it returns an error, storage is
//! left exactly as it was.

pub mod types;
pub mod model;
pub mod pallet;
pub mod genesis;
pub mod laws;

pub use types::{DispatchResult, Error, Event, EventView, Gender, Id, Kitty, Config, KittyView};
pub use model::PalletView;
pub use pallet::Pallet;
pub use genesis::GenesisConfig;

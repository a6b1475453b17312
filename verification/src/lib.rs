//! Wire types of the Astroport-Juno pair, factory, router and incentives
//! contracts, with a verified encoder of their JSON wire format, and the
//! decision logic of the keep-set deployment sequence.

pub mod wire;
pub mod primitives;
pub mod asset;
pub mod factory;
pub mod incentives;
pub mod pair;
pub mod router;
pub mod keep_set;
pub mod unambiguous;

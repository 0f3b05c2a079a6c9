//! A registry of decentralized identities, verifiable credentials and
//! selective-disclosure access grants, with every state transition verified.

pub mod address;
pub mod credential_vault;
pub mod identity_core;
pub mod ledger;
pub mod registry;

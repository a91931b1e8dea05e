//! Account-resolution protocol for a relayer that discovers, over read-only
//! probing rounds, the accounts and instructions needed to execute a
//! cross-system message.
//!
//! The core pieces are the three-state [`resolver::Resolver`] outcome type
//! with its composition algebra, a canonical binary encoding of outcomes,
//! account lookup against the accounts supplied in a round, and the overflow
//! protocol that spills large results into a growable side-channel record.

pub mod codec;
pub mod decode;
pub mod discriminator;
pub mod encode;
pub mod error;
pub mod growth;
pub mod iterative;
pub mod lookup;
pub mod pda;
pub mod lut_resolver;
pub mod pubkey;
pub mod record;
pub mod resolver;
pub mod types;

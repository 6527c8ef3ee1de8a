//! State-transition and consensus core of a minimal proof-of-work ledger.

pub mod accountstate;
pub mod block;
pub mod chain;
pub mod codec;
pub mod decode;
pub mod error;
pub mod feeschedule;
pub mod hash;
pub mod header;
pub mod injective;
pub mod ledger;
pub mod response;
pub mod transaction;
pub mod uint;
pub mod worldstate;

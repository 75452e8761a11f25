//! A verified model of a confidential token-swap custody-and-settlement
//! protocol.
//!
//! A user places an encrypted swap order and funds a protocol-owned custody
//! wallet; an external confidential-computation service later delivers the
//! decrypted order terms through a callback, which activates a single-use
//! settlement record; an external swap router is then driven exactly once off
//! that record; any residual funds are returned to the user when the wallet is
//! torn down.
//!
//! The ledger's account universe is modelled as content-addressed maps: a
//! custody wallet lives at the address derived from `(owner, nonce)` and a
//! settlement record at the address derived from its nonce, exactly mirroring
//! the deterministic address derivation that gives the protocol exclusive
//! authority over its accounts. The surrounding runtime (token transfers,
//! the computation service, the swap router) stays outside this crate; each
//! operation takes the externally observed values it needs as arguments and
//! returns the action the runtime must perform.

mod addressed;
mod error;
pub mod laws;
pub mod protocol;
mod state;
mod types;

pub use error::ErrorCode;
pub use state::settlement_address;
pub use state::Dex;
pub use types::ComputationOutput;
pub use types::OrderSettledEvent;
pub use types::QueuedComputation;
pub use types::SettlementRequest;
pub use types::SwapOrder;
pub use types::TempWallet;
pub use types::TempWalletCreated;
pub use types::TokenMapping;

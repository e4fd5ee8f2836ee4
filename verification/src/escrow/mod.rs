pub mod contract;
pub mod errors;
pub mod events;
pub mod storage;

pub use errors::EscrowError;
pub use events::EscrowEvent;
pub use storage::{EscrowContract, EscrowData, EscrowStatus, PayerStats, ProtocolConfig, RateLimitConfig, YieldRecipient};
pub use contract::{Effects, ReputationCall, ReputationRecord, Settlement, Transfer, YieldDeposit, YieldWithdrawal};

pub mod assoc;
pub mod cli;
pub mod documents;
pub mod escrow;
pub mod factory;
pub mod reputation;
pub mod text;
pub mod types;

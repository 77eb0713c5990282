//! Turns a Solana block's flat instruction traces into call trees and
//! point-in-time token ledgers, and the events that protocol decoders report
//! on them into one batch of table rows per block.
pub mod block;
pub mod events;
pub mod ledger;
pub mod rows;
pub mod tree;

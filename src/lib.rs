//! An escrow marketplace engine (listings, offers, counter-offers, settlement
//! and price history), together with the small reward, reputation and
//! achievement ledgers that live beside it.
//!
//! Every module is plain logic over plain values: principals are the text of
//! their addresses, time is a number handed in by the host, and value
//! movements are returned for the host to carry out.
pub mod accounting;
pub mod achievement_nft;
pub mod daily_rewards;
pub mod marketplace;
pub mod price_history;
pub mod reputation;
pub mod settlement;

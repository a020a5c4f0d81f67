//! Market-data ingestion core: typed events, a bounded event ring with
//! per-kind dispatch, the streaming-client state machine, the market agent
//! and an L2 order-book replica with snapshot bootstrap.
pub mod text;
pub mod decimal;
pub mod exchange;
pub mod config;
pub mod event;
pub mod book;
pub mod engine;
pub mod ring;
pub mod dispatcher;
pub mod dispatcher_mpsc;
pub mod client;
pub mod json;
pub mod agent;

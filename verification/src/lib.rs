//! Receiving side of entity replication.

pub mod acknowledging;
pub mod blocks;
pub mod channels;
pub mod client;
pub mod confirm_history;
pub mod conservation;
pub mod context;
pub mod effects;
pub mod entity;
pub mod entity_map;
pub mod isolation;
pub mod laws;
pub mod message;
pub mod mutate_ticks;
pub mod peers;
pub mod progress;
pub mod receive;
pub mod receiving;
pub mod replication;
pub mod serving;
pub mod signature;
pub mod tick;
pub mod turns;
pub mod wire;

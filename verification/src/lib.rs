//! Verified core of the NEAR implementation of IBC: the indexed queues and the
//! key-sorted link map that back the contract's storage, and the bookkeeping
//! rules of the contracts around it.

pub mod ordering;
pub mod keyed_entries;
pub mod index_window;
pub mod indexed_lookup_queue;
pub mod queue_viewer;
pub mod types;
pub mod ascending_queues;
pub mod link_map;
pub mod text;
pub mod outside;
pub mod accounts;
pub mod view_map;
pub mod ledger;
pub mod channel_escrow;
pub mod wrapped_token;
pub mod state_book;
pub mod ibc_store;
pub mod packet_events;
pub mod deposit;
pub mod token_factory;
pub mod escrow_factory;
pub mod near_ibc_contract;

//! A backend-agnostic ledger client core: capability traits for account
//! access, a transaction sanitizer that expands address-lookup-table
//! references, and a canonical execution-result model shared by every
//! backend adapter.

pub mod addr;
pub mod account;
pub mod bank_adapter;
pub mod banks_adapter;
pub mod capability;
pub mod compile;
pub mod delegate;
pub mod encode;
pub mod errors;
pub mod execution;
pub mod executor;
pub mod exts;
pub mod fee;
pub mod lookup;
pub mod rent;
pub mod rpc_adapter;
pub mod sanitize;
pub mod transaction;
pub mod sort;
pub mod store;


//! Typed call bindings for compiled contracts, and an in-memory execution
//! provider to deploy and drive them.
pub mod text;
pub mod abi;
pub mod compiler;
pub mod hexcode;
pub mod bindings;
pub mod provider;
pub mod contract;

//! Verified engines of a DAO platform.
//!
//! The core are two graphs over member addresses. The delegation graph
//! ([`graph`], [`delegation`], [`power`], [`delegation_contract`]) records
//! who has handed its votes to whom and computes effective voting power.
//! The referral graph ([`referral_graph`], [`referral`],
//! [`referral_contract`]) records who referred whom, refuses referrals that
//! would close a cycle, counts rewards and conversions and ranks referrers.
//! Both rest on chains in a relation with one outgoing edge per member
//! ([`chains`]) and on a small map from addresses to values ([`store`]).
//! What holds of the graphs whatever the state is proved in [`graph`],
//! [`power_laws`] and [`referral_graph`].
//!
//! Around the core stand the other contracts of the platform, each as a
//! state machine with exact contracts: disputes ([`arbitrator`],
//! [`dispute`], [`resolution`], [`dispute_contract`]), proposals
//! ([`proposal`]), the treasury ([`treasury`], [`decimal`]), member
//! registries ([`member_registry`], [`registry`]), roles ([`role_manager`]),
//! notifications ([`severity`], [`category`], [`notification`]), voting
//! badges ([`voting_nft`], [`nft_collection`]) and identity records
//! ([`kyc`]).
//!
//! No operation here authenticates anybody, reads a clock or publishes an
//! event. The host does: it authenticates the caller before it invokes a
//! mutating operation, passes the time where an operation needs it, and
//! publishes what an operation returns. A refused operation changes nothing.

pub mod address;
pub mod store;
pub mod chains;
pub mod scan;
pub mod text;
pub mod graph;
pub mod delegation;
pub mod power;
pub mod power_laws;
pub mod delegation_contract;
pub mod referral_graph;
pub mod referral;
pub mod codes;
pub mod referral_contract;
pub mod arbitrator;
pub mod resolution;
pub mod dispute;
pub mod dispute_contract;
pub mod proposal;
pub mod decimal;
pub mod treasury;
pub mod severity;
pub mod category;
pub mod notification;
pub mod kyc;
pub mod member_registry;
pub mod registry;
pub mod role_manager;
pub mod voting_nft;
pub mod nft_collection;

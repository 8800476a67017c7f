//! Verified core of a family of Soroban contract templates.
pub mod address;
pub mod airdrop;
pub mod bytes;
pub mod crowdfund;
pub mod crypto;
pub mod dao;
pub mod dutch;
pub mod errors;
pub mod common;
pub mod keys;
pub mod lottery;
pub mod merkle;
pub mod merkle_tree;
pub mod page;
pub mod seqs;

//! Storage keys shared across the contract templates.
use vstd::prelude::*;

verus! {

/// Storage key for the contract administrator address.
#[derive(Clone, Copy, Debug, PartialEq, Eq, Structural)]
pub enum AdminKey {
    /// Instance-storage slot holding the administrator address.
    Admin,
}

/// Reusable storage key variants shared across contracts.
#[derive(Clone, Copy, Debug, PartialEq, Eq, Structural)]
pub enum CommonKey {
    /// Instance-storage slot holding the administrator address.
    Admin,
    /// Instance-storage slot holding the payment token address.
    Token,
}

} // verus!

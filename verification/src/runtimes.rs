//! Concrete runtime type bindings. Exactly one binding is active per client
//! configuration; several may coexist for different ledgers.

use crate::asset_registry::AssetRegistry;
use crate::identity::Identity;
use crate::system::{AccountId32, Address, BlakeTwo256, Hash256, Header, System};
use vstd::prelude::*;

verus! {

/// Concrete type definitions compatible with a default ledger node. If the
/// target ledger's primitive types differ, a custom binding must be used.
#[derive(Debug, Clone, Copy, PartialEq, Eq)]
pub struct DefaultNodeRuntime;

impl System for DefaultNodeRuntime {
    type Index = u32;

    type BlockNumber = u32;

    type Hash = Hash256;

    type Hashing = BlakeTwo256;

    type AccountId = AccountId32;

    type Address = Address<AccountId32, u32>;

    type Header = Header<u32, Hash256>;
}

impl Identity for DefaultNodeRuntime {

}

impl AssetRegistry for DefaultNodeRuntime {

}

} // verus!

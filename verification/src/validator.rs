//! A validator as the node knows it: its address and its stake.

use vstd::prelude::*;
use crate::types::Address;

verus! {

#[derive(Clone, Debug, PartialEq, Eq)]
pub struct ValidatorNode {
    pub address: Address,
    pub stake: u64,
}

impl ValidatorNode {
    pub fn new(address: Address, stake: u64) -> (out: Self)
        ensures
            out.address == address,
            out.stake == stake,
    {
        ValidatorNode { address, stake }
    }
}

} // verus!

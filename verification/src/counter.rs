//! The counter service's state. Its operations are declared by the platform
//! interface but not provided, so the state carries nothing.
use vstd::prelude::*;

verus! {

#[derive(Debug)]
pub struct CounterrContractState {}

} // verus!

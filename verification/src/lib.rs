//! The verified logic of a set of DAO contracts: an access control list, a token
//! ledger, a voting app, a DAO factory and the community template that installs
//! and lists the apps.
//!
//! Each contract call is a function from the stored state and the call's
//! arguments to the new state and the reply. A refused call is an error reply,
//! which ends the call with the state left as it was; a call that aborts (a
//! number that does not parse, or arithmetic that leaves its range) is an error
//! whose `aborts` says so, and ends the call the same way.
use vstd::prelude::*;

pub mod strmap;
pub mod text;
pub mod digest;
pub mod acl;
pub mod token;
pub mod voting;
pub mod dao;
pub mod community;

verus! {

} // verus!

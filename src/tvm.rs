//! Method ids of the ticket vending service, which exchanges credentials
//! for tickets.

use vstd::prelude::*;

verus! {

/// Methods of the ticket vending service.
#[derive(Clone, Copy, Debug, PartialEq, Eq, Structural)]
pub enum Method {
    /// Exchanges a client id and secret for a ticket.
    Ticket,
}

/// The id under which `m` is called on the wire.
pub open spec fn method_id(m: Method) -> u64 {
    match m {
        Method::Ticket => 0,
    }
}

impl From<Method> for u64 {
    fn from(m: Method) -> (r: u64)
        ensures
            r == method_id(m),
    {
        match m {
            Method::Ticket => 0,
        }
    }
}

impl vstd::std_specs::convert::FromSpecImpl<Method> for u64 {
    open spec fn obeys_from_spec() -> bool {
        true
    }

    open spec fn from_spec(m: Method) -> u64 {
        method_id(m)
    }
}

} // verus!

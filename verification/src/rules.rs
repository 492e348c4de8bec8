//! Forwarding rules of a bridge connection.
use vstd::prelude::*;

verus! {

/// A forwarding rule: into the local broker, or out to the remote one.
pub enum Rule {
    Inward(Forward),
    Outward(Forward),
}

/// Which topics are forwarded, and the prefixes they get on each side.
pub struct Forward {
    remote_prefix: String,
    local_prefix: String,
    pattern: String,
}

/// A bridge connection configured by forwarding rules.
pub struct Connection {}

impl Connection {
    /// A connection for the given rules, which it does not keep.
    pub fn new(rules: Vec<Rule>) -> (r: Self)
        ensures
            r == (Connection {}),
    {
        Connection {}
    }
}

} // verus!

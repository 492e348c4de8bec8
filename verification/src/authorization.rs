//! Authorization of module requests on the Kubernetes runtime, where every
//! request is allowed.
use vstd::prelude::*;

verus! {

/// Who may make a request.
#[derive(Debug)]
pub enum Policy {
    Anonymous,
    Caller,
    Module(&'static str),
}

/// The process identifier of a caller: none known, any, or a value.
#[derive(Clone, Copy, Debug, PartialEq, Eq, Structural)]
pub enum Pid {
    Absent,
    Any,
    Value(i32),
}

/// The authorizer of requests, for a module runtime of type `M`.
pub struct Authorization<M> {
    runtime: M,
    policy: Policy,
}

impl<M> Authorization<M> {
    /// The runtime the authorizer was made with.
    pub closed spec fn runtime(&self) -> M {
        self.runtime
    }

    /// The policy the authorizer was made with.
    pub closed spec fn policy(&self) -> Policy {
        self.policy
    }

    pub fn new(runtime: M, policy: Policy) -> (r: Self)
        ensures
            r.runtime() == runtime,
            r.policy() == policy,
    {
        Authorization { runtime, policy }
    }

    /// Whether the caller with this name and process identifier may make its
    /// request: on this runtime, always.
    pub fn authorize(&self, name: Option<String>, pid: Pid) -> (r: bool)
        ensures
            r,
    {
        true
    }
}

} // verus!

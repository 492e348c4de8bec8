//! Sidecars of the broker: the handles that ask them to shut down, and the
//! manager that decides which of them are told to stop when the server or
//! one of the sidecars exits.
use vstd::prelude::*;

verus! {

/// The means to ask a sidecar to shut down: a future that does it when run.
pub struct SidecarShutdownHandle<F> {
    shutdown: F,
}

impl<F> SidecarShutdownHandle<F> {
    /// The future that performs the shutdown.
    pub closed spec fn shutdown_future(&self) -> F {
        self.shutdown
    }

    pub fn new(shutdown: F) -> (r: Self)
        ensures
            r.shutdown_future() == shutdown,
    {
        SidecarShutdownHandle { shutdown }
    }

    /// The future that performs the shutdown, to be awaited.
    pub fn into_future(self) -> (r: F)
        ensures
            r == self.shutdown_future(),
    {
        self.shutdown
    }
}

/// The error of a sidecar that cannot give a shutdown handle.
#[derive(Debug, Clone, Copy, PartialEq, Eq, Structural)]
pub struct SidecarShutdownHandleError;

impl SidecarShutdownHandleError {
    /// The error's message.
    pub fn message(&self) -> (r: &'static str)
        ensures
            r@ == "unable to obtain shutdown handler for sidecar"@,
    {
        "unable to obtain shutdown handler for sidecar"
    }
}

/// What ended the first: the broker's server, or the sidecar at an index.
#[derive(Clone, Copy, Debug, PartialEq, Eq, Structural)]
pub enum FirstExit {
    Server,
    Sidecar(usize),
}

/// How the manager shuts down once something has exited.
#[derive(Clone, Debug)]
pub struct ShutdownPlan {
    /// Whether the broker is told to shut down and its server awaited.
    pub signal_broker: bool,
    /// The sidecars, by index, whose shutdown handles are run, in order.
    pub shut_down: Vec<usize>,
}

/// The indices `0..count`, without `skipped` if it is given.
pub open spec fn indices_except(count: nat, skipped: Option<usize>) -> Seq<usize> {
    let all = Seq::new(count, |i: int| i as usize);
    match skipped {
        Some(k) => all.remove(k as int),
        None => all,
    }
}

/// The plan after `exit`, for `count` sidecars: when the server ends first,
/// every sidecar is told to shut down; when a sidecar ends first, the broker
/// is told to shut down, and every other sidecar after it.
pub open spec fn plan_for(count: nat, exit: FirstExit) -> (bool, Seq<usize>) {
    match exit {
        FirstExit::Server => (false, indices_except(count, None)),
        FirstExit::Sidecar(k) => (true, indices_except(count, Some(k))),
    }
}

/// The sidecars that run beside the broker.
pub struct SidecarManager<S> {
    sidecars: Vec<S>,
}

impl<S> SidecarManager<S> {
    /// The sidecars, in the order they were added.
    pub closed spec fn sidecars(&self) -> Seq<S> {
        self.sidecars@
    }

    /// There are never more sidecars than a `usize` counts.
    pub proof fn lemma_sidecars_fit(&self)
        ensures
            self.sidecars().len() <= usize::MAX,
    {
        assert(self.sidecars.len() == self.sidecars@.len());
    }

    pub fn new() -> (r: Self)
        ensures
            r.sidecars() == Seq::<S>::empty(),
    {
        SidecarManager { sidecars: Vec::new() }
    }

    pub fn add_sidecar(&mut self, sidecar: S)
        ensures
            final(self).sidecars() == old(self).sidecars().push(sidecar),
    {
        self.sidecars.push(sidecar);
    }

    /// The sidecars, to be started.
    pub fn into_sidecars(self) -> (r: Vec<S>)
        ensures
            r@ == self.sidecars(),
    {
        self.sidecars
    }

    /// What to do once `exit` has happened.
    pub fn shutdown_plan(&self, exit: FirstExit) -> (p: ShutdownPlan)
        requires
            exit matches FirstExit::Sidecar(k) ==> k < self.sidecars().len(),
        ensures
            (p.signal_broker, p.shut_down@) == plan_for(self.sidecars().len(), exit),
    {
        let count = self.sidecars.len();
        let mut shut_down: Vec<usize> = Vec::new();
        let mut i: usize = 0;
        let skipped = match exit {
            FirstExit::Server => None,
            FirstExit::Sidecar(k) => Some(k),
        };
        while i < count
            invariant
                i <= count,
                count == self.sidecars().len(),
                exit matches FirstExit::Sidecar(k) ==> k < count,
                skipped == match exit {
                    FirstExit::Server => None::<usize>,
                    FirstExit::Sidecar(k) => Some(k),
                },
                shut_down@ == indices_except(i as nat, if skipped matches Some(k) && k < i { skipped } else { None }),
            decreases count - i,
        {
            let ghost before = shut_down@;
            if skipped != Some(i) {
                shut_down.push(i);
            }
            proof {
                let next_skip = if skipped matches Some(k) && k < i + 1 { skipped } else { None::<usize> };
                let prev_skip = if skipped matches Some(k) && k < i { skipped } else { None::<usize> };
                let all = Seq::new((i + 1) as nat, |j: int| j as usize);
                let all_prev = Seq::new(i as nat, |j: int| j as usize);
                assert(all_prev =~= all.drop_last());
                if skipped == Some(i) {
                    assert(indices_except((i + 1) as nat, next_skip) =~= all_prev);
                } else {
                    match prev_skip {
                        Some(k) => {
                            assert(all.remove(k as int) =~= all_prev.remove(k as int).push(i));
                        },
                        None => {
                            assert(all =~= all_prev.push(i));
                        },
                    }
                }
            }
            i = i + 1;
        }
        proof {
            let final_skip = if skipped matches Some(k) && k < count { skipped } else { None::<usize> };
            assert(final_skip == skipped);
        }
        ShutdownPlan { signal_broker: skipped.is_some(), shut_down }
    }
}

/// Every sidecar but the one that ended first is told to shut down, each
/// once, in the order they were added; the broker is told to shut down
/// exactly when a sidecar ended first.
pub proof fn lemma_plan_shuts_down_the_others(count: nat, exit: FirstExit)
    requires
        count <= usize::MAX,
        exit matches FirstExit::Sidecar(k) ==> k < count,
    ensures
        ({
            let (signal_broker, shut_down) = plan_for(count, exit);
            &&& signal_broker == (exit is Sidecar)
            &&& forall|i: usize| #![trigger shut_down.contains(i)]
                shut_down.contains(i) <==> (i < count && exit != FirstExit::Sidecar(i))
            &&& forall|a: int, b: int| 0 <= a < b < shut_down.len() ==> shut_down[a] < shut_down[b]
        }),
{
    let all = Seq::new(count, |i: int| i as usize);
    let shut_down = plan_for(count, exit).1;
    match exit {
        FirstExit::Server => {
            assert forall|a: int, b: int| 0 <= a < b < shut_down.len() implies shut_down[a] < shut_down[b] by {
                assert(shut_down[a] == a);
                assert(shut_down[b] == b);
            }
            assert forall|i: usize| #![trigger shut_down.contains(i)]
                shut_down.contains(i) <==> (i < count && exit != FirstExit::Sidecar(i)) by {
                if i < count {
                    assert(shut_down[i as int] == i);
                }
            }
        },
        FirstExit::Sidecar(k) => {
            assert forall|j: int| 0 <= j < shut_down.len() implies #[trigger] shut_down[j] == if j < k { j } else { j + 1 } by {
                if j < k {
                    assert(shut_down[j] == all[j]);
                } else {
                    assert(shut_down[j] == all[j + 1]);
                }
            }
            assert forall|i: usize| #![trigger shut_down.contains(i)]
                shut_down.contains(i) <==> (i < count && exit != FirstExit::Sidecar(i)) by {
                if i < count && i != k {
                    if i < k {
                        assert(shut_down[i as int] == i);
                    } else {
                        assert(shut_down[i - 1] == i);
                    }
                }
                if shut_down.contains(i) {
                    let j = choose|j: int| 0 <= j < shut_down.len() && shut_down[j] == i;
                    assert(shut_down[j] == if j < k { j } else { j + 1 });
                }
            }
            assert forall|a: int, b: int| 0 <= a < b < shut_down.len() implies shut_down[a] < shut_down[b] by {
                assert(shut_down[a] == if a < k { a } else { a + 1 });
                assert(shut_down[b] == if b < k { b } else { b + 1 });
            }
        },
    }
}

} // verus!

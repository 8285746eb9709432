//! The shared pool of endpoints to probe, and the proof that a completed
//! drain attempts every endpoint exactly once.

use vstd::prelude::*;

verus! {

/// One network endpoint to probe: a host and a port.
pub struct Target {
    pub host: String,
    pub port: u16,
}

impl View for Target {
    type V = (Seq<char>, u16);

    open spec fn view(&self) -> (Seq<char>, u16) {
        (self.host@, self.port)
    }
}

impl Target {
    /// A copy of this target.
    pub fn duplicate(&self) -> (t: Target)
        ensures
            t == *self,
    {
        Target { host: self.host.clone(), port: self.port }
    }
}

/// The shared collection of endpoints. A scan consumes each target at most
/// once by popping it; monitoring only reads a snapshot and never drains.
pub struct TargetPool {
    pub targets: Vec<Target>,
}

impl TargetPool {
    /// A pool holding exactly the given targets.
    pub fn new(targets: Vec<Target>) -> (p: TargetPool)
        ensures
            p.targets == targets,
    {
        TargetPool { targets }
    }

    /// How many targets the pool still holds.
    pub fn len(&self) -> (n: usize)
        ensures
            n == self.targets@.len(),
    {
        self.targets.len()
    }

    /// Removes and returns one target; `None` on an empty pool, which is the
    /// sole termination signal for a scan worker, not an error.
    pub fn pop(&mut self) -> (r: Option<Target>)
        ensures
            old(self).targets@.len() == 0 ==> r is None
                && final(self).targets@ == old(self).targets@,
            old(self).targets@.len() > 0 ==> r == Some(old(self).targets@.last())
                && final(self).targets@ == old(self).targets@.drop_last(),
    {
        let r = self.targets.pop();
        proof {
            if old(self).targets@.len() > 0 {
                assert(final(self).targets@ =~= old(self).targets@.drop_last());
            }
        }
        r
    }

    /// A read-only copy of the pool's contents, in order.
    pub fn snapshot(&self) -> (r: Vec<Target>)
        ensures
            r@ == self.targets@,
    {
        let mut r: Vec<Target> = Vec::new();
        let mut i: usize = 0;
        while i < self.targets.len()
            invariant
                i <= self.targets@.len(),
                r@ == self.targets@.take(i as int),
            decreases self.targets@.len() - i,
        {
            r.push(self.targets[i].duplicate());
            i = i + 1;
            proof {
                assert(r@ =~= self.targets@.take(i as int));
            }
        }
        proof {
            assert(self.targets@.take(self.targets@.len() as int) =~= self.targets@);
        }
        r
    }
}

/// One exclusive pop: the pool loses exactly its last element, which becomes
/// the popping worker's attempt. Pool mutation is exclusive, so a run with
/// any number of workers is a chain of such steps, whatever the interleaving.
pub open spec fn pool_step(before: Seq<Target>, after: Seq<Target>, attempt: Target) -> bool {
    before.len() > 0 && attempt == before.last() && after == before.drop_last()
}

/// A completed scan attempts every target exactly once: along any chain of
/// exclusive pops that ends in an empty pool, the attempts form, as a
/// multiset, exactly the initial contents of the pool — independent of the
/// worker count and of the order in which workers took their turns.
pub proof fn lemma_scan_attempts_every_target(states: Seq<Seq<Target>>, attempts: Seq<Target>)
    requires
        states.len() == attempts.len() + 1,
        forall|i: int|
            0 <= i < attempts.len() ==> pool_step(states[i], states[i + 1], attempts[i]),
        states.last().len() == 0,
    ensures
        attempts.to_multiset() == states[0].to_multiset(),
    decreases attempts.len(),
{
    broadcast use vstd::seq_lib::group_to_multiset_ensures;

    if attempts.len() == 0 {
        assert(states[0] =~= states.last());
        assert(attempts.to_multiset() =~= states[0].to_multiset());
    } else {
        let states2 = states.drop_first();
        let attempts2 = attempts.drop_first();
        assert forall|i: int|
            0 <= i < attempts2.len() implies pool_step(
            states2[i],
            states2[i + 1],
            attempts2[i],
        ) by {
            assert(pool_step(states[i + 1], states[i + 2], attempts[i + 1]));
        }
        assert(states2.last() =~= states.last());
        lemma_scan_attempts_every_target(states2, attempts2);

        // The first step pops `attempts[0]` off the back of the initial pool.
        assert(pool_step(states[0], states[1], attempts[0]));
        assert(states[0] =~= states[1].push(attempts[0]));
        assert(states[0].to_multiset() =~= states[1].to_multiset().insert(attempts[0]));

        // Re-attach the first attempt on the attempts side.
        assert(attempts =~= attempts2.insert(0, attempts[0]));
        assert(attempts2 =~= attempts.remove(0));
        assert(attempts.remove(0).to_multiset() == attempts.to_multiset().remove(attempts[0]));
        assert(attempts[0] == attempts.first());
        assert(attempts.contains(attempts[0]));
        assert(attempts.to_multiset().count(attempts[0]) > 0);
        assert(attempts.to_multiset() =~= attempts.to_multiset().remove(attempts[0]).insert(
            attempts[0],
        ));
        assert(attempts.to_multiset() =~= states[0].to_multiset());
    }
}

} // verus!

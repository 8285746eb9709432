//! The scan coordinator: drains the target pool exactly once, probing each
//! popped target, filtering responses through the condition engine, and
//! appending every accepted result to the result sink.

use vstd::prelude::*;
use crate::adapters::{CCheckResponse, ProbeError};
use crate::condition::{spec_is_valid, Conditions};
use crate::format::ccheck::{record_matches, CCheckFileHandler, Server};
use crate::pool::{Target, TargetPool};

verus! {

/// The scan coordinator's state: the pool to drain, the rule set, and the
/// per-probe settings handed to the probe client.
pub struct Scanner {
    pub addrs: TargetPool,
    pub conditions: Conditions,
    /// The per-probe timeout, in milliseconds, covering connection and the
    /// full protocol exchange.
    pub timeout_ms: u64,
    pub progress_bar: bool,
}

/// The accepted (target, response) pairs of a drain, in the order they are
/// appended to the sink: targets pop off the back of the pool, so the pair
/// for the last target comes first. `outcomes[i]` is the probe outcome for
/// `targets[i]`; a probe failure or a rule rejection is silently discarded.
pub open spec fn spec_scan_accepted(
    targets: Seq<Target>,
    outcomes: Seq<Result<CCheckResponse, ProbeError>>,
    cs: Conditions,
) -> Seq<(Target, CCheckResponse)>
    decreases targets.len(),
{
    if targets.len() == 0 || outcomes.len() != targets.len() {
        Seq::empty()
    } else {
        let head: Seq<(Target, CCheckResponse)> = match outcomes.last() {
            Result::Ok(r) => if spec_is_valid(cs, r) {
                seq![(targets.last(), r)]
            } else {
                Seq::empty()
            },
            Result::Err(_) => Seq::empty(),
        };
        head + spec_scan_accepted(targets.drop_last(), outcomes.drop_last(), cs)
    }
}

impl Scanner {
    /// Drains the pool exactly once: pops targets until the pool is empty,
    /// takes `outcomes[i]` as the probe outcome for target `i`, and appends
    /// the record of every accepted response to the sink. Returns the
    /// accepted count and the total target count. Failures and rejections
    /// are discarded without retry or re-queueing.
    #[verifier::rlimit(100)]
    pub fn run(
        &mut self,
        outcomes: Vec<Result<CCheckResponse, ProbeError>>,
        out: &mut CCheckFileHandler,
    ) -> (counts: (usize, usize))
        requires
            outcomes@.len() == old(self).addrs.targets@.len(),
            old(out).wf(),
            !old(out).closed,
            old(out).count + outcomes@.len() <= usize::MAX,
        ensures
            final(self).addrs.targets@.len() == 0,
            final(self).conditions == old(self).conditions,
            final(out).wf(),
            !final(out).closed,
            counts.1 == outcomes@.len(),
            counts.0 == spec_scan_accepted(
                old(self).addrs.targets@,
                outcomes@,
                old(self).conditions,
            ).len(),
            final(out).count == old(out).count + counts.0,
            final(out).records@.len() == old(out).records@.len() + counts.0,
            forall|k: int|
                0 <= k < old(out).records@.len() ==> final(out).records@[k] == old(
                    out,
                ).records@[k],
            forall|k: int|
                0 <= k < counts.0 ==> record_matches(
                    final(out).records@[old(out).records@.len() + k],
                    spec_scan_accepted(
                        old(self).addrs.targets@,
                        outcomes@,
                        old(self).conditions,
                    )[k].0,
                    spec_scan_accepted(
                        old(self).addrs.targets@,
                        outcomes@,
                        old(self).conditions,
                    )[k].1,
                ),
    {
        let ghost full_accepted = spec_scan_accepted(
            old(self).addrs.targets@,
            outcomes@,
            old(self).conditions,
        );
        let total: usize = self.addrs.len();
        let mut outcomes = outcomes;
        let mut accepted_count: usize = 0;
        loop
            invariant
                self.conditions == old(self).conditions,
                outcomes@.len() == self.addrs.targets@.len(),
                out.wf(),
                !out.closed,
                out.count == old(out).count + accepted_count,
                out.count + outcomes@.len() <= usize::MAX,
                accepted_count <= full_accepted.len(),
                full_accepted.skip(accepted_count as int) == spec_scan_accepted(
                    self.addrs.targets@,
                    outcomes@,
                    self.conditions,
                ),
                out.records@.len() == old(out).records@.len() + accepted_count,
                forall|k: int|
                    0 <= k < old(out).records@.len() ==> out.records@[k] == old(out).records@[k],
                forall|k: int|
                    0 <= k < accepted_count ==> record_matches(
                        out.records@[old(out).records@.len() + k],
                        full_accepted[k].0,
                        full_accepted[k].1,
                    ),
            ensures
                self.addrs.targets@.len() == 0,
                accepted_count == full_accepted.len(),
            decreases self.addrs.targets@.len(),
        {
            let ghost prev_targets = self.addrs.targets@;
            let ghost prev_outcomes = outcomes@;
            let t_opt = self.addrs.pop();
            match t_opt {
                None => {
                    proof {
                        assert(full_accepted.skip(accepted_count as int).len() == 0);
                    }
                    break ;
                },
                Some(t) => {
                    let o_opt = outcomes.pop();
                    match o_opt {
                        Some(o) => {
                            proof {
                                assert(outcomes@ =~= prev_outcomes.drop_last());
                            }
                            match o {
                                Ok(resp) => {
                                    if self.conditions.is_valid(&resp) {
                                        proof {
                                            let rest = spec_scan_accepted(
                                                self.addrs.targets@,
                                                outcomes@,
                                                self.conditions,
                                            );
                                            assert(full_accepted.skip(accepted_count as int)
                                                =~= seq![(t, resp)] + rest);
                                            assert(full_accepted.skip(accepted_count as int)[0]
                                                == (t, resp));
                                            assert(full_accepted[accepted_count as int]
                                                == (t, resp));
                                            assert(full_accepted.skip(accepted_count + 1)
                                                =~= full_accepted.skip(
                                                accepted_count as int,
                                            ).drop_first());
                                            assert((seq![(t, resp)] + rest).drop_first()
                                                =~= rest);
                                            assert(full_accepted.skip(accepted_count + 1)
                                                =~= rest);
                                        }
                                        let server = Server::from_resp(resp, t);
                                        let _chunk = out.write_resp(server);
                                        accepted_count = accepted_count + 1;
                                    } else {
                                        proof {
                                            let rest = spec_scan_accepted(
                                                self.addrs.targets@,
                                                outcomes@,
                                                self.conditions,
                                            );
                                            assert(full_accepted.skip(accepted_count as int)
                                                =~= rest);
                                        }
                                    }
                                },
                                Err(_) => {
                                    proof {
                                        let rest = spec_scan_accepted(
                                            self.addrs.targets@,
                                            outcomes@,
                                            self.conditions,
                                        );
                                        assert(full_accepted.skip(accepted_count as int)
                                            =~= rest);
                                    }
                                },
                            }
                        },
                        None => {
                            proof {
                                assert(false);
                            }
                        },
                    }
                },
            }
        }
        (accepted_count, total)
    }
}

} // verus!

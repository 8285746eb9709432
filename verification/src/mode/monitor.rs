//! The monitor coordinator: repeatedly re-probes a fixed target set in
//! rate-limited rounds and raises an alert for every accepted response.

use vstd::prelude::*;
use crate::adapters::{sample_players, CCheckPlayer, CCheckResponse, ProbeError};
use crate::condition::{spec_is_valid, Conditions};
use crate::pool::Target;
use crate::text::{chars_to_string, push_dec_usize, push_str_chars, spec_dec_nat};

verus! {

/// The monitor coordinator's state: a fixed, never-drained target set, the
/// rule set, the issue rate and the per-probe timeout.
pub struct Monitor {
    /// Probes issued per second: the long-run spawn rate within a round.
    pub rate: usize,
    /// The per-probe timeout, in milliseconds.
    pub timeout_ms: u64,
    pub conditions: Conditions,
    pub addrs: Vec<Target>,
    pub webhook_url: Option<String>,
}

/// What an alert carries to the notifier: the endpoint's address, the
/// reported version, the sampled player names run together, and the
/// description text.
pub struct AlertPayload {
    pub address: String,
    pub version: String,
    pub players: String,
    pub motd: String,
}

/// The sampled player names run together, each followed by a comma and a
/// space, the last sampled name first.
pub open spec fn spec_names_concat(ps: Seq<CCheckPlayer>) -> Seq<char>
    decreases ps.len(),
{
    if ps.len() == 0 {
        Seq::empty()
    } else {
        spec_names_concat(ps.drop_first()) + ps.first().name@ + ", "@
    }
}

/// The alert payload `p` describes response `r` probed at endpoint `t`.
pub open spec fn payload_matches(p: AlertPayload, t: Target, r: CCheckResponse) -> bool {
    &&& p.address@ == t.host@ + seq![':'] + spec_dec_nat(t.port as nat)
    &&& p.version == r.version
    &&& p.players@ == spec_names_concat(sample_players(r))
    &&& p.motd == r.description.text
}

/// The accepted (target, response) pairs of one monitoring round, in probe
/// order: `outcomes[i]` is the probe outcome for `addrs[i]`; failures and
/// rejections are discarded exactly as in a scan.
pub open spec fn spec_round_accepted(
    addrs: Seq<Target>,
    outcomes: Seq<Result<CCheckResponse, ProbeError>>,
    cs: Conditions,
) -> Seq<(Target, CCheckResponse)>
    decreases addrs.len(),
{
    if addrs.len() == 0 || outcomes.len() != addrs.len() {
        Seq::empty()
    } else {
        let head: Seq<(Target, CCheckResponse)> = match outcomes.first() {
            Result::Ok(r) => if spec_is_valid(cs, r) {
                seq![(addrs.first(), r)]
            } else {
                Seq::empty()
            },
            Result::Err(_) => Seq::empty(),
        };
        head + spec_round_accepted(addrs.drop_first(), outcomes.drop_first(), cs)
    }
}

/// The accepted pairs of the first `upto` rounds, in order.
pub open spec fn spec_rounds_accepted(
    m: Monitor,
    rounds: Seq<Vec<Result<CCheckResponse, ProbeError>>>,
    upto: int,
) -> Seq<(Target, CCheckResponse)>
    decreases upto,
{
    if upto <= 0 || upto > rounds.len() {
        Seq::empty()
    } else {
        spec_rounds_accepted(m, rounds, upto - 1) + spec_round_accepted(
            m.addrs@,
            rounds[upto - 1]@,
            m.conditions,
        )
    }
}

/// What one monitor run reports: how many rounds ran to completion and the
/// alerts raised, one per accepted response, in order.
pub struct MonitorReport {
    pub rounds_run: usize,
    pub alerts: Vec<AlertPayload>,
}

impl Monitor {
    /// The pause between successive probe spawns within a round, in
    /// microseconds, so that the long-run issue rate does not exceed the
    /// configured rate.
    pub fn spawn_delay_micros(&self) -> (d: u64)
        requires
            self.rate >= 1,
        ensures
            d == 1_000_000int / self.rate as int,
    {
        (1_000_000usize / self.rate) as u64
    }

    /// Decides one probe's outcome: an accepted response yields the alert
    /// payload for the notifier, anything else yields nothing.
    pub fn evaluate(&self, target: &Target, resp: &CCheckResponse) -> (r: Option<AlertPayload>)
        ensures
            r is Some <==> spec_is_valid(self.conditions, *resp),
            r matches Some(p) ==> payload_matches(p, *target, *resp),
    {
        if !self.conditions.is_valid(resp) {
            return None;
        }
        let mut addr: Vec<char> = Vec::new();
        push_str_chars(target.host.as_str(), &mut addr);
        addr.push(':');
        push_dec_usize(target.port as usize, &mut addr);
        let mut names: Vec<char> = Vec::new();
        match &resp.sample {
            Some(ps) => {
                let mut j: usize = ps.len();
                proof {
                    assert(ps@.skip(j as int) =~= Seq::<CCheckPlayer>::empty());
                }
                while j > 0
                    invariant
                        j <= ps@.len(),
                        names@ == spec_names_concat(ps@.skip(j as int)),
                    decreases j,
                {
                    j = j - 1;
                    push_str_chars(ps[j].name.as_str(), &mut names);
                    push_str_chars(", ", &mut names);
                    proof {
                        assert(ps@.skip(j as int).drop_first() =~= ps@.skip(j + 1));
                        assert(ps@.skip(j as int).first() == ps@[j as int]);
                        assert(names@ =~= spec_names_concat(ps@.skip(j as int)));
                    }
                }
                proof {
                    assert(ps@.skip(0) =~= ps@);
                }
            },
            None => {},
        }
        let payload = AlertPayload {
            address: chars_to_string(&addr),
            version: resp.version.clone(),
            players: chars_to_string(&names),
            motd: resp.description.text.clone(),
        };
        proof {
            assert(payload.address@ =~= target.host@ + seq![':'] + spec_dec_nat(
                target.port as nat,
            ));
        }
        Some(payload)
    }

    /// Runs one round: evaluates `outcomes[i]` as the probe outcome for
    /// `addrs[i]` and returns one alert per accepted response, in probe
    /// order. Probe failures and rejections are discarded without retry.
    pub fn run_round(&self, outcomes: &Vec<Result<CCheckResponse, ProbeError>>) -> (alerts: Vec<
        AlertPayload,
    >)
        requires
            outcomes@.len() == self.addrs@.len(),
        ensures
            alerts@.len() == spec_round_accepted(self.addrs@, outcomes@, self.conditions).len(),
            forall|k: int|
                0 <= k < alerts@.len() ==> payload_matches(
                    alerts@[k],
                    spec_round_accepted(self.addrs@, outcomes@, self.conditions)[k].0,
                    spec_round_accepted(self.addrs@, outcomes@, self.conditions)[k].1,
                ),
    {
        let ghost full = spec_round_accepted(self.addrs@, outcomes@, self.conditions);
        let mut alerts: Vec<AlertPayload> = Vec::new();
        let mut i: usize = 0;
        proof {
            assert(self.addrs@.skip(0) =~= self.addrs@);
            assert(outcomes@.skip(0) =~= outcomes@);
            assert(full.skip(0) =~= full);
        }
        while i < self.addrs.len()
            invariant
                outcomes@.len() == self.addrs@.len(),
                i <= self.addrs@.len(),
                alerts@.len() <= full.len(),
                full.skip(alerts@.len() as int) == spec_round_accepted(
                    self.addrs@.skip(i as int),
                    outcomes@.skip(i as int),
                    self.conditions,
                ),
                forall|k: int|
                    0 <= k < alerts@.len() ==> payload_matches(alerts@[k], full[k].0, full[k].1),
            decreases self.addrs@.len() - i,
        {
            let ghost m = alerts@.len() as int;
            let ghost cur_addrs = self.addrs@.skip(i as int);
            let ghost cur_outcomes = outcomes@.skip(i as int);
            proof {
                assert(cur_addrs.len() > 0);
                assert(cur_addrs.first() == self.addrs@[i as int]);
                assert(cur_outcomes.first() == outcomes@[i as int]);
                assert(cur_addrs.drop_first() =~= self.addrs@.skip(i + 1));
                assert(cur_outcomes.drop_first() =~= outcomes@.skip(i + 1));
            }
            match &outcomes[i] {
                Ok(resp) => {
                    let r = self.evaluate(&self.addrs[i], resp);
                    match r {
                        Some(p) => {
                            proof {
                                let rest = spec_round_accepted(
                                    self.addrs@.skip(i + 1),
                                    outcomes@.skip(i + 1),
                                    self.conditions,
                                );
                                assert(full.skip(m) =~= seq![(self.addrs@[i as int], *resp)]
                                    + rest);
                                assert(full.skip(m)[0] == (self.addrs@[i as int], *resp));
                                assert(full[m] == (self.addrs@[i as int], *resp));
                                assert(full.skip(m + 1) =~= full.skip(m).drop_first());
                                assert((seq![(self.addrs@[i as int], *resp)]
                                    + rest).drop_first() =~= rest);
                            }
                            alerts.push(p);
                        },
                        None => {
                            proof {
                                assert(full.skip(m) =~= spec_round_accepted(
                                    self.addrs@.skip(i + 1),
                                    outcomes@.skip(i + 1),
                                    self.conditions,
                                ));
                            }
                        },
                    }
                },
                Err(_) => {
                    proof {
                        assert(full.skip(m) =~= spec_round_accepted(
                            self.addrs@.skip(i + 1),
                            outcomes@.skip(i + 1),
                            self.conditions,
                        ));
                    }
                },
            }
            i = i + 1;
        }
        proof {
            assert(self.addrs@.skip(self.addrs@.len() as int) =~= Seq::<Target>::empty());
            assert(full.skip(alerts@.len() as int).len() == 0);
        }
        alerts
    }

    /// Runs rounds in order, strictly sequentially, each round completing
    /// before the next starts. With `exit_on_success` set, the run stops
    /// after the first round that accepted at least one response — after
    /// that round completes, never mid-round; otherwise every given round
    /// runs. Returns how many rounds ran and every alert they raised.
    pub fn run(
        &self,
        exit_on_success: bool,
        rounds: &Vec<Vec<Result<CCheckResponse, ProbeError>>>,
    ) -> (report: MonitorReport)
        requires
            forall|j: int|
                0 <= j < rounds@.len() ==> (#[trigger] rounds@[j])@.len() == self.addrs@.len(),
        ensures
            report.rounds_run <= rounds@.len(),
            !exit_on_success ==> report.rounds_run == rounds@.len(),
            exit_on_success ==> forall|j: int|
                0 <= j < report.rounds_run - 1 ==> spec_round_accepted(
                    self.addrs@,
                    (#[trigger] rounds@[j])@,
                    self.conditions,
                ).len() == 0,
            exit_on_success && report.rounds_run < rounds@.len() ==> spec_round_accepted(
                self.addrs@,
                rounds@[report.rounds_run - 1]@,
                self.conditions,
            ).len() > 0,
            report.alerts@.len() == spec_rounds_accepted(
                *self,
                rounds@,
                report.rounds_run as int,
            ).len(),
            forall|k: int|
                0 <= k < report.alerts@.len() ==> payload_matches(
                    report.alerts@[k],
                    spec_rounds_accepted(*self, rounds@, report.rounds_run as int)[k].0,
                    spec_rounds_accepted(*self, rounds@, report.rounds_run as int)[k].1,
                ),
    {
        let mut alerts: Vec<AlertPayload> = Vec::new();
        let mut rounds_run: usize = 0;
        let mut j: usize = 0;
        while j < rounds.len()
            invariant_except_break
                exit_on_success ==> forall|jj: int|
                    0 <= jj < j ==> spec_round_accepted(
                        self.addrs@,
                        (#[trigger] rounds@[jj])@,
                        self.conditions,
                    ).len() == 0,
            invariant
                forall|jj: int|
                    0 <= jj < rounds@.len() ==> (#[trigger] rounds@[jj])@.len()
                        == self.addrs@.len(),
                j <= rounds@.len(),
                rounds_run == j,
                alerts@.len() == spec_rounds_accepted(*self, rounds@, j as int).len(),
                forall|k: int|
                    0 <= k < alerts@.len() ==> payload_matches(
                        alerts@[k],
                        spec_rounds_accepted(*self, rounds@, j as int)[k].0,
                        spec_rounds_accepted(*self, rounds@, j as int)[k].1,
                    ),
            ensures
                j <= rounds@.len(),
                rounds_run == j,
                !exit_on_success ==> j == rounds@.len(),
                exit_on_success ==> forall|jj: int|
                    0 <= jj < j - 1 ==> spec_round_accepted(
                        self.addrs@,
                        (#[trigger] rounds@[jj])@,
                        self.conditions,
                    ).len() == 0,
                exit_on_success && j < rounds@.len() ==> spec_round_accepted(
                    self.addrs@,
                    rounds@[j - 1]@,
                    self.conditions,
                ).len() > 0,
                alerts@.len() == spec_rounds_accepted(*self, rounds@, j as int).len(),
                forall|k: int|
                    0 <= k < alerts@.len() ==> payload_matches(
                        alerts@[k],
                        spec_rounds_accepted(*self, rounds@, j as int)[k].0,
                        spec_rounds_accepted(*self, rounds@, j as int)[k].1,
                    ),
            decreases rounds@.len() - j,
        {
            let ghost prev = spec_rounds_accepted(*self, rounds@, j as int);
            let ghost round_acc = spec_round_accepted(
                self.addrs@,
                rounds@[j as int]@,
                self.conditions,
            );
            let mut round_alerts = self.run_round(&rounds[j]);
            let ghost round_alerts_snap = round_alerts@;
            let accepted_any = round_alerts.len() > 0;
            proof {
                assert(spec_rounds_accepted(*self, rounds@, j + 1) == prev + round_acc);
            }
            let ghost alerts_snap = alerts@;
            alerts.append(&mut round_alerts);
            j = j + 1;
            rounds_run = j;
            proof {
                let cur = spec_rounds_accepted(*self, rounds@, j as int);
                assert(cur == prev + round_acc);
                assert(alerts@ == alerts_snap + round_alerts_snap);
                assert forall|k: int| 0 <= k < alerts@.len() implies payload_matches(
                    alerts@[k],
                    cur[k].0,
                    cur[k].1,
                ) by {
                    if k < prev.len() {
                        assert(cur[k] == prev[k]);
                        assert(alerts@[k] == alerts_snap[k]);
                    } else {
                        assert(cur[k] == round_acc[k - prev.len()]);
                        assert(alerts@[k] == round_alerts_snap[k - prev.len()]);
                    }
                }
            }
            if exit_on_success && accepted_any {
                break ;
            }
        }
        MonitorReport { rounds_run, alerts }
    }
}

} // verus!

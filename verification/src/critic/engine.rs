//! MetaCognitionEngine: evaluates task outcomes against the self-model and
//! emits typed action recommendations.
//!
//! The engine keeps the consecutive-failure streak of each capability. What
//! it needs from the self-model (the confidence after the observation, its
//! three-decimal rendering, and the observation count) is handed to it as a
//! `CapabilityReading`.
use super::output::{AlertSeverity, CriticOutput};
use super::rules::CriticConfig;
use crate::float_bits::FloatBits;
use crate::json::JsonValue;
use crate::table::StrMap;
use crate::text::{decimal, push_decimal, push_signed_decimal, signed_decimal};
use crate::types::{MemoryTier, Observation, TaskOutcome};
use vstd::prelude::*;

verus! {

/// What the self-model reports for the observed capability.
#[derive(Debug, Clone)]
pub struct CapabilityReading {
    /// The confidence (mean of the capability's Beta distribution), if the
    /// capability is tracked, as a binary64 bit pattern.
    pub confidence: Option<FloatBits>,
    /// The confidence written with three decimals (`{:.3}`).
    pub confidence_text: String,
    /// Observations recorded for the capability.
    pub observation_count: u64,
}

/// A description of one expected output, with texts as character sequences.
pub enum Expected {
    NoAction { reason: Seq<char> },
    MemoryWrite { tier: MemoryTier, key: Seq<char>, content: Seq<char> },
    /// A `Warning` alert.
    Alert { message: Seq<char>, related_task: Option<u128> },
    /// An experiment on `capability`, evaluated by imp@50.
    Experiment { hypothesis: Seq<char>, capability: Seq<char> },
    /// A switch of `parameter` from "default" to "fallback".
    PolicyUpdate { parameter: Seq<char>, rationale: Seq<char> },
}

/// `v` is the JSON string `s`.
pub open spec fn json_text(v: JsonValue, s: Seq<char>) -> bool {
    v matches JsonValue::String(t) && t@ == s
}

/// `o` is the output `e` describes.
pub open spec fn describes(o: CriticOutput, e: Expected) -> bool {
    match e {
        Expected::NoAction { reason } => o matches CriticOutput::NoAction { reason: r } && r@
            == reason,
        Expected::MemoryWrite { tier, key, content } => o matches CriticOutput::MemoryWrite {
            tier: t,
            key: k,
            content: c,
        } && t == tier && k@ == key && c@ == content,
        Expected::Alert { message, related_task } => o matches CriticOutput::Alert {
            severity,
            message: m,
            related_task: rt,
        } && severity == AlertSeverity::Warning && m@ == message && rt == related_task,
        Expected::Experiment { hypothesis, capability } => o matches CriticOutput::Experiment {
            hypothesis: h,
            proposed_change: JsonValue::Object(es),
            evaluation_metric: em,
        } && h@ == hypothesis && em@ == "imp@50"@ && es@.len() == 2 && es@[0].0@ == "capability"@
            && json_text(es@[0].1, capability) && es@[1].0@ == "action"@ && json_text(
            es@[1].1,
            "shadow_test_alternative"@,
        ),
        Expected::PolicyUpdate { parameter, rationale } => o matches CriticOutput::PolicyUpdate {
            parameter: p,
            old_value,
            new_value,
            rationale: r,
        } && p@ == parameter && json_text(old_value, "default"@) && json_text(
            new_value,
            "fallback"@,
        ) && r@ == rationale,
    }
}

/// Quoted capability: `'<cap>'`.
pub open spec fn quoted(cap: Seq<char>) -> Seq<char> {
    "'"@ + cap + "'"@
}

pub open spec fn success_reason(cap: Seq<char>) -> Seq<char> {
    "Task succeeded for capability "@ + quoted(cap)
}

pub open spec fn failure_key(cap: Seq<char>, secs: int) -> Seq<char> {
    "failure/"@ + cap + "/"@ + signed_decimal(secs)
}

pub open spec fn failure_content(cap: Seq<char>, streak: nat) -> Seq<char> {
    "Failure on capability "@ + quoted(cap) + ", streak: "@ + decimal(streak)
}

pub open spec fn alert_message(cap: Seq<char>, streak: nat) -> Seq<char> {
    "Capability "@ + quoted(cap) + " has failed "@ + decimal(streak) + " times consecutively"@
}

pub open spec fn experiment_hypothesis(cap: Seq<char>, conf: Seq<char>) -> Seq<char> {
    "Capability "@ + quoted(cap) + " may need different approach (confidence: "@ + conf + ")"@
}

pub open spec fn strategy_parameter(cap: Seq<char>) -> Seq<char> {
    "capability."@ + cap + ".strategy"@
}

/// Rationale of a policy update after the self-model was updated.
pub open spec fn counted_rationale(cap: Seq<char>, conf: Seq<char>, count: nat) -> Seq<char> {
    "Confidence for "@ + quoted(cap) + " is "@ + conf + " after "@ + decimal(count)
        + " observations"@
}

/// Rationale of a policy update judged without updating.
pub open spec fn low_confidence_rationale(cap: Seq<char>, conf: Seq<char>) -> Seq<char> {
    "Low confidence for "@ + quoted(cap) + ": "@ + conf
}

pub open spec fn degraded_key(cap: Seq<char>, secs: int) -> Seq<char> {
    "degraded/"@ + cap + "/"@ + signed_decimal(secs)
}

pub open spec fn degraded_content(cap: Seq<char>) -> Seq<char> {
    "Degraded performance on capability "@ + quoted(cap)
}

/// The advice a failure earns from the confidence: an experiment below the
/// experiment threshold, else a policy update below the policy threshold
/// (only with enough observations).
pub open spec fn confidence_advice(
    config: CriticConfig,
    cap: Seq<char>,
    confidence: Option<FloatBits>,
    conf_text: Seq<char>,
    count: u64,
    updated: bool,
) -> Seq<Expected> {
    match confidence {
        None => Seq::empty(),
        Some(c) => if c.spec_lt(config.experiment_confidence_threshold) {
            seq![Expected::Experiment { hypothesis: experiment_hypothesis(cap, conf_text), capability: cap }]
        } else if c.spec_lt(config.policy_update_confidence_threshold) {
            if count < config.min_observations_for_policy {
                Seq::empty()
            } else if updated {
                seq![Expected::PolicyUpdate { parameter: strategy_parameter(cap), rationale: counted_rationale(cap, conf_text, count as nat) }]
            } else {
                seq![Expected::PolicyUpdate { parameter: strategy_parameter(cap), rationale: low_confidence_rationale(cap, conf_text) }]
            }
        } else {
            Seq::empty()
        },
    }
}

/// The outputs for an observation, given the failure streak it brings the
/// capability to (`streak`, used for failures) and the self-model reading.
pub open spec fn expected_outputs(
    config: CriticConfig,
    obs: Observation,
    streak: nat,
    reading: CapabilityReading,
    updated: bool,
) -> Seq<Expected> {
    let cap = obs.capability.0@;
    let secs = obs.timestamp.secs as int;
    match obs.outcome {
        TaskOutcome::Success => seq![Expected::NoAction { reason: success_reason(cap) }],
        TaskOutcome::Failure => {
            let journal = if config.always_journal_failures {
                seq![Expected::MemoryWrite { tier: MemoryTier::L4ErrorJournal, key: failure_key(cap, secs), content: failure_content(cap, streak) }]
            } else {
                Seq::empty()
            };
            let alert = if streak >= config.alert_failure_streak {
                seq![Expected::Alert { message: alert_message(cap, streak), related_task: obs.task_id }]
            } else {
                Seq::empty()
            };
            journal + alert + confidence_advice(
                config,
                cap,
                reading.confidence,
                reading.confidence_text@,
                reading.observation_count,
                updated,
            )
        },
        TaskOutcome::Degraded => seq![Expected::MemoryWrite { tier: MemoryTier::L2Session, key: degraded_key(cap, secs), content: degraded_content(cap) }],
    }
}

/// `out` are exactly the outputs `expected` describes, in order.
pub open spec fn outputs_match(out: Seq<CriticOutput>, expected: Seq<Expected>) -> bool {
    out.len() == expected.len() && forall|i: int|
        0 <= i < out.len() ==> describes(#[trigger] out[i], expected[i])
}

fn text3(a: &str, b: &str, c: &str) -> (r: String)
    ensures
        r@ == a@ + b@ + c@,
{
    crate::text::concat3(a, b, c)
}

fn json_str(s: &str) -> (r: JsonValue)
    ensures
        json_text(r, s@),
{
    JsonValue::text(s)
}

fn quoted_capability(cap: &str) -> (r: String)
    ensures
        r@ == quoted(cap@),
{
    text3("'", cap, "'")
}

/// The failure streak `streaks` records for `cap` (0 when none is recorded).
pub open spec fn streak_in(streaks: Map<Seq<char>, u32>, cap: Seq<char>) -> nat {
    if streaks.contains_key(cap) {
        streaks[cap] as nat
    } else {
        0
    }
}

/// The streaks after `n` failures of `cap`, each extending its streak by one
/// (as `evaluate_mut` does for a failure).
pub open spec fn after_failures(streaks: Map<Seq<char>, u32>, cap: Seq<char>, n: nat) -> Map<
    Seq<char>,
    u32,
>
    decreases n,
{
    if n == 0 {
        streaks
    } else {
        let prev = after_failures(streaks, cap, (n - 1) as nat);
        prev.insert(cap, (streak_in(prev, cap) + 1) as u32)
    }
}

/// How one observation of `cap` changes the streaks: a success clears the
/// capability's streak, a failure extends it by one, a degraded outcome
/// leaves it.
pub open spec fn streak_step(streaks: Map<Seq<char>, u32>, cap: Seq<char>, outcome: TaskOutcome) -> Map<
    Seq<char>,
    u32,
> {
    match outcome {
        TaskOutcome::Success => streaks.remove(cap),
        TaskOutcome::Failure => streaks.insert(cap, (streak_in(streaks, cap) + 1) as u32),
        TaskOutcome::Degraded => streaks,
    }
}

/// The streaks after a history of (capability, outcome) observations.
pub open spec fn streaks_after(streaks: Map<Seq<char>, u32>, history: Seq<(Seq<char>, TaskOutcome)>) -> Map<
    Seq<char>,
    u32,
>
    decreases history.len(),
{
    if history.len() == 0 {
        streaks
    } else {
        streak_step(streaks_after(streaks, history.drop_last()), history.last().0, history.last().1)
    }
}

/// The failures of `cap` since its last success in `history` (counting on
/// from `start` when there was none); other capabilities and degraded
/// outcomes neither count nor reset.
pub open spec fn failures_since_success(
    history: Seq<(Seq<char>, TaskOutcome)>,
    cap: Seq<char>,
    start: nat,
) -> nat
    decreases history.len(),
{
    if history.len() == 0 {
        start
    } else {
        let before = failures_since_success(history.drop_last(), cap, start);
        if history.last().0 != cap {
            before
        } else {
            match history.last().1 {
                TaskOutcome::Success => 0,
                TaskOutcome::Failure => before + 1,
                TaskOutcome::Degraded => before,
            }
        }
    }
}

/// The meta-cognition engine: evaluates observations and produces typed
/// recommendations, tracking consecutive failures per capability.
pub struct MetaCognitionEngine {
    config: CriticConfig,
    /// Consecutive failure count per capability.
    failure_streaks: StrMap<u32>,
}

impl MetaCognitionEngine {
    /// The configuration.
    pub closed spec fn spec_config(&self) -> CriticConfig {
        self.config
    }

    /// The recorded failure streaks, by capability.
    pub closed spec fn streaks(&self) -> Map<Seq<char>, u32> {
        self.failure_streaks@
    }

    /// The current failure streak of `cap` (0 when none is recorded).
    pub open spec fn streak_of(&self, cap: Seq<char>) -> nat {
        streak_in(self.streaks(), cap)
    }

    /// A new engine with no recorded failures.
    pub fn new(config: CriticConfig) -> (r: MetaCognitionEngine)
        ensures
            r.spec_config() == config,
            r.streaks() == Map::<Seq<char>, u32>::empty(),
    {
        MetaCognitionEngine { config, failure_streaks: StrMap::new() }
    }

    /// The configuration.
    pub fn config(&self) -> (r: &CriticConfig)
        ensures
            *r == self.spec_config(),
    {
        &self.config
    }

    /// The current failure streak of a capability.
    pub fn failure_streak(&self, capability: &str) -> (r: u32)
        ensures
            r == self.streak_of(capability@),
    {
        match self.failure_streaks.get(capability) {
            Some(n) => *n,
            None => 0,
        }
    }

    /// The outputs for an observation whose capability has reached failure
    /// streak `streak` (used for failures).
    fn outputs_for(
        config: &CriticConfig,
        obs: &Observation,
        streak: u32,
        reading: &CapabilityReading,
        updated: bool,
    ) -> (r: Vec<CriticOutput>)
        ensures
            outputs_match(r@, expected_outputs(*config, *obs, streak as nat, *reading, updated)),
    {
        let cap = obs.capability.as_text();
        let ghost c = cap@;
        let ghost secs = obs.timestamp.secs as int;
        let mut out: Vec<CriticOutput> = Vec::new();
        let ghost mut exp: Seq<Expected> = Seq::empty();
        match obs.outcome {
            TaskOutcome::Success => {
                let q = quoted_capability(cap);
                let reason = crate::text::concat2("Task succeeded for capability ", q.as_str());
                out.push(CriticOutput::NoAction { reason });
                proof {
                    exp = seq![Expected::NoAction { reason: success_reason(c) }];
                }
            },
            TaskOutcome::Failure => {
                if config.always_journal_failures {
                    let mut key = text3("failure/", cap, "/");
                    push_signed_decimal(&mut key, obs.timestamp.secs);
                    let q = quoted_capability(cap);
                    let mut content = text3("Failure on capability ", q.as_str(), ", streak: ");
                    push_decimal(&mut content, streak as u64);
                    out.push(
                        CriticOutput::MemoryWrite { tier: MemoryTier::L4ErrorJournal, key, content },
                    );
                    proof {
                        exp = exp.push(
                            Expected::MemoryWrite {
                                tier: MemoryTier::L4ErrorJournal,
                                key: failure_key(c, secs),
                                content: failure_content(c, streak as nat),
                            },
                        );
                    }
                }
                if streak >= config.alert_failure_streak {
                    let q = quoted_capability(cap);
                    let mut message = text3("Capability ", q.as_str(), " has failed ");
                    push_decimal(&mut message, streak as u64);
                    message.append(" times consecutively");
                    out.push(
                        CriticOutput::Alert {
                            severity: AlertSeverity::Warning,
                            message,
                            related_task: obs.task_id,
                        },
                    );
                    proof {
                        exp = exp.push(
                            Expected::Alert {
                                message: alert_message(c, streak as nat),
                                related_task: obs.task_id,
                            },
                        );
                    }
                }
                let ghost before = exp;
                if let Some(confidence) = reading.confidence {
                    if confidence.lt(&config.experiment_confidence_threshold) {
                        let q = quoted_capability(cap);
                        let mut hypothesis = text3(
                            "Capability ",
                            q.as_str(),
                            " may need different approach (confidence: ",
                        );
                        hypothesis.append(reading.confidence_text.as_str());
                        hypothesis.append(")");
                        let mut entries: Vec<(String, JsonValue)> = Vec::new();
                        entries.push((String::from_str("capability"), json_str(cap)));
                        entries.push((String::from_str("action"), json_str("shadow_test_alternative")));
                        out.push(
                            CriticOutput::Experiment {
                                hypothesis,
                                proposed_change: JsonValue::Object(entries),
                                evaluation_metric: String::from_str("imp@50"),
                            },
                        );
                        proof {
                            exp = exp.push(
                                Expected::Experiment {
                                    hypothesis: experiment_hypothesis(c, reading.confidence_text@),
                                    capability: c,
                                },
                            );
                        }
                    } else if confidence.lt(&config.policy_update_confidence_threshold) {
                        let q = quoted_capability(cap);
                        if updated {
                            if reading.observation_count >= config.min_observations_for_policy {
                                let mut rationale = text3("Confidence for ", q.as_str(), " is ");
                                rationale.append(reading.confidence_text.as_str());
                                rationale.append(" after ");
                                push_decimal(&mut rationale, reading.observation_count);
                                rationale.append(" observations");
                                out.push(
                                    CriticOutput::PolicyUpdate {
                                        parameter: text3("capability.", cap, ".strategy"),
                                        old_value: json_str("default"),
                                        new_value: json_str("fallback"),
                                        rationale,
                                    },
                                );
                                proof {
                                    exp = exp.push(
                                        Expected::PolicyUpdate {
                                            parameter: strategy_parameter(c),
                                            rationale: counted_rationale(
                                                c,
                                                reading.confidence_text@,
                                                reading.observation_count as nat,
                                            ),
                                        },
                                    );
                                }
                            }
                        } else if reading.observation_count >= config.min_observations_for_policy {
                            let mut rationale = text3("Low confidence for ", q.as_str(), ": ");
                            rationale.append(reading.confidence_text.as_str());
                            out.push(
                                CriticOutput::PolicyUpdate {
                                    parameter: text3("capability.", cap, ".strategy"),
                                    old_value: json_str("default"),
                                    new_value: json_str("fallback"),
                                    rationale,
                                },
                            );
                            proof {
                                exp = exp.push(
                                    Expected::PolicyUpdate {
                                        parameter: strategy_parameter(c),
                                        rationale: low_confidence_rationale(
                                            c,
                                            reading.confidence_text@,
                                        ),
                                    },
                                );
                            }
                        }
                    }
                }
                proof {
                    let advice = confidence_advice(
                        *config,
                        c,
                        reading.confidence,
                        reading.confidence_text@,
                        reading.observation_count,
                        updated,
                    );
                    assert(exp =~= before + advice);
                    let journal = if config.always_journal_failures {
                        seq![Expected::MemoryWrite { tier: MemoryTier::L4ErrorJournal, key: failure_key(c, secs), content: failure_content(c, streak as nat) }]
                    } else {
                        Seq::empty()
                    };
                    let alert = if streak >= config.alert_failure_streak {
                        seq![Expected::Alert { message: alert_message(c, streak as nat), related_task: obs.task_id }]
                    } else {
                        Seq::empty()
                    };
                    assert(before =~= journal + alert);
                }
            },
            TaskOutcome::Degraded => {
                let mut key = text3("degraded/", cap, "/");
                push_signed_decimal(&mut key, obs.timestamp.secs);
                let q = quoted_capability(cap);
                let content = crate::text::concat2(
                    "Degraded performance on capability ",
                    q.as_str(),
                );
                out.push(CriticOutput::MemoryWrite { tier: MemoryTier::L2Session, key, content });
                proof {
                    exp = seq![Expected::MemoryWrite { tier: MemoryTier::L2Session, key: degraded_key(c, secs), content: degraded_content(c) }];
                }
            },
        }
        proof {
            assert(exp =~= expected_outputs(*config, *obs, streak as nat, *reading, updated));
        }
        out
    }

    /// Evaluates an observation and updates the failure streaks: a success
    /// clears the capability's streak, a failure extends it by one, a degraded
    /// outcome leaves it. `reading` is the self-model's state for the
    /// capability after it recorded the observation.
    pub fn evaluate_mut(&mut self, observation: &Observation, reading: &CapabilityReading) -> (r: Vec<
        CriticOutput,
    >)
        requires
            observation.outcome == TaskOutcome::Failure ==> old(self).streak_of(
                observation.capability.0@,
            ) < u32::MAX,
        ensures
            final(self).spec_config() == old(self).spec_config(),
            outputs_match(
                r@,
                expected_outputs(
                    old(self).spec_config(),
                    *observation,
                    old(self).streak_of(observation.capability.0@) + 1,
                    *reading,
                    true,
                ),
            ),
            observation.outcome == TaskOutcome::Success ==> final(self).streaks() == old(
                self,
            ).streaks().remove(observation.capability.0@),
            observation.outcome == TaskOutcome::Failure ==> final(self).streaks() == old(
                self,
            ).streaks().insert(
                observation.capability.0@,
                (old(self).streak_of(observation.capability.0@) + 1) as u32,
            ),
            observation.outcome == TaskOutcome::Degraded ==> final(self).streaks() == old(
                self,
            ).streaks(),
            final(self).streaks() == streak_step(
                old(self).streaks(),
                observation.capability.0@,
                observation.outcome,
            ),
    {
        let cap = observation.capability.as_text();
        let mut streak: u32 = 0;
        match observation.outcome {
            TaskOutcome::Success => {
                self.failure_streaks.remove(cap);
            },
            TaskOutcome::Failure => {
                let current = self.failure_streak(cap);
                streak = current + 1;
                self.failure_streaks.insert(String::from_str(cap), streak);
            },
            TaskOutcome::Degraded => {},
        }
        Self::outputs_for(&self.config, observation, streak, reading, true)
    }

    /// Evaluates an observation without changing the engine: the failure
    /// streak it would bring is the recorded one plus one. As after an update,
    /// a policy update needs `min_observations_for_policy` observations.
    pub fn evaluate(&self, observation: &Observation, reading: &CapabilityReading) -> (r: Vec<
        CriticOutput,
    >)
        requires
            observation.outcome == TaskOutcome::Failure ==> self.streak_of(observation.capability.0@)
                < u32::MAX,
        ensures
            outputs_match(
                r@,
                expected_outputs(
                    self.spec_config(),
                    *observation,
                    self.streak_of(observation.capability.0@) + 1,
                    *reading,
                    false,
                ),
            ),
    {
        let cap = observation.capability.as_text();
        let streak: u32 = match observation.outcome {
            TaskOutcome::Failure => self.failure_streak(cap) + 1,
            _ => 0,
        };
        Self::outputs_for(&self.config, observation, streak, reading, false)
    }
}

impl MetaCognitionEngine {
    /// The outputs a batch earns when each observation is judged in turn
    /// without updating the engine.
    pub open spec fn batch_expected(&self, batch: Seq<(Observation, CapabilityReading)>) -> Seq<
        Expected,
    >
        decreases batch.len(),
    {
        if batch.len() == 0 {
            Seq::empty()
        } else {
            let (obs, reading) = batch.last();
            self.batch_expected(batch.drop_last()) + expected_outputs(
                self.spec_config(),
                obs,
                self.streak_of(obs.capability.0@) + 1,
                reading,
                false,
            )
        }
    }

    /// Critiques a batch of observations (e.g. an end-of-DAG summary): the
    /// outputs of judging each observation, with its self-model reading, in
    /// turn, without changing the engine.
    pub fn critique_batch(&self, batch: &Vec<(Observation, CapabilityReading)>) -> (r: Vec<
        CriticOutput,
    >)
        requires
            forall|i: int|
                0 <= i < batch.len() && (#[trigger] batch@[i]).0.outcome == TaskOutcome::Failure
                    ==> self.streak_of(batch@[i].0.capability.0@) < u32::MAX,
        ensures
            outputs_match(r@, self.batch_expected(batch@)),
    {
        let mut all: Vec<CriticOutput> = Vec::new();
        let n = batch.len();
        let mut i: usize = 0;
        while i < n
            invariant
                n == batch@.len(),
                i <= n,
                forall|j: int|
                    0 <= j < batch.len() && (#[trigger] batch@[j]).0.outcome == TaskOutcome::Failure
                        ==> self.streak_of(batch@[j].0.capability.0@) < u32::MAX,
                outputs_match(all@, self.batch_expected(batch@.take(i as int))),
            decreases n - i,
        {
            let item = &batch[i];
            let mut out = self.evaluate(&item.0, &item.1);
            let ghost prev = all@;
            let ghost outs = out@;
            proof {
                assert(batch@.take(i + 1).drop_last() =~= batch@.take(i as int));
                assert(batch@.take(i + 1).last() == batch@[i as int]);
            }
            all.append(&mut out);
            proof {
                let e1 = self.batch_expected(batch@.take(i as int));
                let (obs, reading) = batch@[i as int];
                let e2 = expected_outputs(
                    self.spec_config(),
                    obs,
                    self.streak_of(obs.capability.0@) + 1,
                    reading,
                    false,
                );
                assert(self.batch_expected(batch@.take(i + 1)) == e1 + e2);
                assert(all@ =~= prev + outs);
                assert forall|j: int| 0 <= j < all@.len() implies describes(
                    #[trigger] all@[j],
                    (e1 + e2)[j],
                ) by {
                    if j < prev.len() {
                        assert(all@[j] == prev[j]);
                    } else {
                        assert(all@[j] == outs[j - prev.len()]);
                    }
                }
            }
            i = i + 1;
        }
        proof {
            assert(batch@.take(n as int) =~= batch@);
        }
        all
    }
}

/// A success earns exactly one output, "no action", naming the capability.
pub proof fn law_success_is_no_action(
    config: CriticConfig,
    obs: Observation,
    streak: nat,
    reading: CapabilityReading,
    updated: bool,
)
    requires
        obs.outcome == TaskOutcome::Success,
    ensures
        expected_outputs(config, obs, streak, reading, updated) == seq![Expected::NoAction { reason: success_reason(obs.capability.0@) }],
{
}

/// A degraded outcome earns exactly one write to session memory (L2).
pub proof fn law_degraded_writes_session(
    config: CriticConfig,
    obs: Observation,
    streak: nat,
    reading: CapabilityReading,
    updated: bool,
)
    requires
        obs.outcome == TaskOutcome::Degraded,
    ensures
        expected_outputs(config, obs, streak, reading, updated).len() == 1,
        expected_outputs(config, obs, streak, reading, updated)[0] matches Expected::MemoryWrite {
            tier: MemoryTier::L2Session,
            ..
        },
{
}

/// A failure is journaled to the error journal (L4) first when journaling is
/// on, and raises an alert exactly when its streak reaches the threshold.
pub proof fn law_failure_journal_and_alert(
    config: CriticConfig,
    obs: Observation,
    streak: nat,
    reading: CapabilityReading,
    updated: bool,
)
    requires
        obs.outcome == TaskOutcome::Failure,
    ensures
        config.always_journal_failures ==> expected_outputs(config, obs, streak, reading, updated)[0]
            matches Expected::MemoryWrite { tier: MemoryTier::L4ErrorJournal, .. },
        (exists|i: int|
            0 <= i < expected_outputs(config, obs, streak, reading, updated).len()
                && #[trigger] expected_outputs(config, obs, streak, reading, updated)[i] is Alert)
            == (streak >= config.alert_failure_streak),
{
    let out = expected_outputs(config, obs, streak, reading, updated);
    let j: int = if config.always_journal_failures {
        1
    } else {
        0
    };
    let advice = confidence_advice(
        config,
        obs.capability.0@,
        reading.confidence,
        reading.confidence_text@,
        reading.observation_count,
        updated,
    );
    assert forall|i: int| 0 <= i < advice.len() implies !(#[trigger] advice[i] is Alert) by {}
    if streak >= config.alert_failure_streak {
        assert(out[j] is Alert);
    } else {
        assert forall|i: int| 0 <= i < out.len() implies !(#[trigger] out[i] is Alert) by {
            if i >= j {
                assert(out[i] == advice[i - j]);
            }
        }
    }
}

/// A success clears the failure streak, so the failure after it is the
/// first of a new streak; consecutive failures count up by one.
pub proof fn law_success_resets_streak(
    before: MetaCognitionEngine,
    after_success: MetaCognitionEngine,
    after_failure: MetaCognitionEngine,
    cap: Seq<char>,
)
    requires
        after_success.streaks() == before.streaks().remove(cap),
        after_failure.streaks() == after_success.streaks().insert(
            cap,
            (after_success.streak_of(cap) + 1) as u32,
        ),
    ensures
        after_success.streak_of(cap) == 0,
        after_failure.streak_of(cap) == 1,
{
}

/// Consecutive failures count up from a cleared streak: after a success
/// (which removes the capability's streak) the `n`-th failure in a row
/// brings the streak to `n`, and leaves other capabilities' streaks alone.
pub proof fn law_consecutive_failures(
    streaks: Map<Seq<char>, u32>,
    cap: Seq<char>,
    other: Seq<char>,
    n: nat,
)
    requires
        n <= u32::MAX,
        other != cap,
    ensures
        streak_in(after_failures(streaks.remove(cap), cap, n), cap) == n,
        streak_in(after_failures(streaks.remove(cap), cap, n), other) == streak_in(streaks, other),
    decreases n,
{
    if n > 0 {
        law_consecutive_failures(streaks, cap, other, (n - 1) as nat);
    }
}

/// Over a history of evaluations, the streak of `cap` is the number of its
/// failures since its last success (on top of the streak it started with
/// when it had no success).
pub proof fn law_streak_history(
    streaks: Map<Seq<char>, u32>,
    history: Seq<(Seq<char>, TaskOutcome)>,
    cap: Seq<char>,
)
    requires
        streak_in(streaks, cap) + history.len() <= u32::MAX,
    ensures
        streak_in(streaks_after(streaks, history), cap) == failures_since_success(
            history,
            cap,
            streak_in(streaks, cap),
        ),
        failures_since_success(history, cap, streak_in(streaks, cap)) <= streak_in(streaks, cap)
            + history.len(),
    decreases history.len(),
{
    if history.len() > 0 {
        law_streak_history(streaks, history.drop_last(), cap);
    }
}

/// Critiquing two batches one after the other gives the outputs of
/// critiquing them as one batch.
pub proof fn law_batch_concat(
    engine: MetaCognitionEngine,
    a: Seq<(Observation, CapabilityReading)>,
    b: Seq<(Observation, CapabilityReading)>,
)
    ensures
        engine.batch_expected(a + b) == engine.batch_expected(a) + engine.batch_expected(b),
    decreases b.len(),
{
    if b.len() == 0 {
        assert(a + b =~= a);
        assert(engine.batch_expected(b) =~= Seq::<Expected>::empty());
        assert(engine.batch_expected(a) + engine.batch_expected(b) =~= engine.batch_expected(a));
    } else {
        assert((a + b).drop_last() =~= a + b.drop_last());
        assert((a + b).last() == b.last());
        law_batch_concat(engine, a, b.drop_last());
        let (obs, reading) = b.last();
        let tail = expected_outputs(
            engine.spec_config(),
            obs,
            engine.streak_of(obs.capability.0@) + 1,
            reading,
            false,
        );
        assert(engine.batch_expected(a) + engine.batch_expected(b.drop_last()) + tail
            =~= engine.batch_expected(a) + (engine.batch_expected(b.drop_last()) + tail));
    }
}

/// The streak maps an engine passes through while `evaluate_mut` takes the
/// observations of `history` in turn (each call's `ensures` gives
/// `streaks[i + 1] == streak_step(streaks[i], ..)`) end in the streak the
/// history law gives: the failures of `cap` since its last success. The next
/// failure of `cap` is therefore judged with streak `j + 1`, `j` those
/// failures; it alerts exactly when `j + 1` reaches the threshold
/// (`law_failure_journal_and_alert`).
pub proof fn law_evaluation_history(
    streaks: Seq<Map<Seq<char>, u32>>,
    history: Seq<(Seq<char>, TaskOutcome)>,
    cap: Seq<char>,
)
    requires
        streaks.len() == history.len() + 1,
        forall|i: int|
            0 <= i < history.len() ==> streaks[i + 1] == streak_step(
                #[trigger] streaks[i],
                history[i].0,
                history[i].1,
            ),
        streak_in(streaks[0], cap) + history.len() <= u32::MAX,
    ensures
        streaks.last() == streaks_after(streaks[0], history),
        streak_in(streaks.last(), cap) == failures_since_success(history, cap, streak_in(streaks[0], cap)),
    decreases history.len(),
{
    if history.len() > 0 {
        let s2 = streaks.drop_last();
        let h2 = history.drop_last();
        assert forall|i: int| 0 <= i < h2.len() implies s2[i + 1] == streak_step(
            #[trigger] s2[i],
            h2[i].0,
            h2[i].1,
        ) by {
            assert(s2[i] == streaks[i]);
            assert(s2[i + 1] == streaks[i + 1]);
        }
        law_evaluation_history(s2, h2, cap);
        let n = history.len() - 1;
        assert(streaks[n + 1] == streak_step(streaks[n], history[n].0, history[n].1));
        assert(s2.last() == streaks[n]);
    }
    law_streak_history(streaks[0], history, cap);
}

/// The advice on a failure is exclusive. Below the experiment threshold a
/// failure earns one experiment and no policy update; a policy update comes
/// only above that threshold, below the policy threshold, and with at least
/// `min_observations_for_policy` observations, and then as the only advice;
/// an untracked capability earns neither.
pub proof fn law_advice_is_exclusive(
    config: CriticConfig,
    obs: Observation,
    streak: nat,
    reading: CapabilityReading,
    updated: bool,
)
    requires
        obs.outcome == TaskOutcome::Failure,
    ensures
        (reading.confidence matches Some(c) && c.spec_lt(config.experiment_confidence_threshold))
            ==> (forall|i: int|
            0 <= i < expected_outputs(config, obs, streak, reading, updated).len() ==> !(
            #[trigger] expected_outputs(config, obs, streak, reading, updated)[i] is PolicyUpdate))
            && (exists|i: int|
            0 <= i < expected_outputs(config, obs, streak, reading, updated).len()
                && #[trigger] expected_outputs(config, obs, streak, reading, updated)[i] is Experiment),
        (exists|i: int|
            0 <= i < expected_outputs(config, obs, streak, reading, updated).len()
                && #[trigger] expected_outputs(config, obs, streak, reading, updated)[i] is PolicyUpdate)
            ==> (reading.confidence matches Some(c) && !c.spec_lt(config.experiment_confidence_threshold)
            && c.spec_lt(config.policy_update_confidence_threshold) && reading.observation_count
            >= config.min_observations_for_policy),
        (exists|i: int|
            0 <= i < expected_outputs(config, obs, streak, reading, updated).len()
                && #[trigger] expected_outputs(config, obs, streak, reading, updated)[i] is Experiment)
            ==> (reading.confidence matches Some(c) && c.spec_lt(config.experiment_confidence_threshold)),
{
    let out = expected_outputs(config, obs, streak, reading, updated);
    let cap = obs.capability.0@;
    let secs = obs.timestamp.secs as int;
    let journal = if config.always_journal_failures {
        seq![Expected::MemoryWrite { tier: MemoryTier::L4ErrorJournal, key: failure_key(cap, secs), content: failure_content(cap, streak) }]
    } else {
        Seq::empty()
    };
    let alert = if streak >= config.alert_failure_streak {
        seq![Expected::Alert { message: alert_message(cap, streak), related_task: obs.task_id }]
    } else {
        Seq::empty()
    };
    let advice = confidence_advice(
        config,
        cap,
        reading.confidence,
        reading.confidence_text@,
        reading.observation_count,
        updated,
    );
    let head = journal + alert;
    assert(out == head + advice);
    assert forall|i: int| 0 <= i < head.len() implies !(#[trigger] head[i] is PolicyUpdate) && !(
    head[i] is Experiment) by {
        if config.always_journal_failures && i == 0 {
        } else {
        }
    }
    assert forall|i: int| 0 <= i < out.len() && (#[trigger] out[i] is PolicyUpdate || out[i] is Experiment) implies i >= head.len()
        && out[i] == advice[i - head.len()] by {
        if i < head.len() {
            assert(out[i] == head[i]);
        }
    }
    if let Some(c) = reading.confidence {
        if c.spec_lt(config.experiment_confidence_threshold) {
            assert(out[head.len() as int] == advice[0]);
            assert(out[head.len() as int] is Experiment);
        }
    }
}

} // verus!

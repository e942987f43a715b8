//! The subscription-quota panic stop and the gates in front of a spawn cycle.
use vstd::prelude::*;

verus! {

broadcast use vstd::seq_lib::group_seq_properties;

/// The most recent rate-limit sample of this host, as far as it bears on the
/// panic: whether each window is at or above the threshold, where it is known.
#[derive(Debug, Clone, Copy, PartialEq, Eq, Structural)]
pub enum SampleLookup {
    Found { five_hour_over: Option<bool>, seven_day_over: Option<bool> },
    Absent,
    /// The store could not answer.
    Failed,
}

/// Whether a sample calls for a panic: a window that is known is over the
/// threshold. A missing sample and a store that cannot answer do not.
pub open spec fn calls_for_panic(lookup: SampleLookup) -> bool {
    lookup matches SampleLookup::Found { five_hour_over, seven_day_over } && (five_hour_over == Some(
        true,
    ) || seven_day_over == Some(true))
}

/// The post that announces the panic.
pub open spec fn panic_post(host: Seq<char>, threshold: Seq<char>) -> Seq<char> {
    "QUOTA PANIC on "@ + host + ": rate-limit sample crossed "@ + threshold
        + "% threshold. \
                     `legion watch` is halting spawn cycles on this host until usage \
                     drops back below the threshold."@
}

/// The post that announces the recovery.
pub open spec fn recovery_post(host: Seq<char>, threshold: Seq<char>) -> Seq<char> {
    "QUOTA RECOVERED on "@ + host + ": rate-limit sample fell below the "@ + threshold
        + "% \
                     threshold. `legion watch` is resuming spawn cycles."@
}

/// The panic stop of this host. A post goes out when the host enters panic,
/// and another when it recovers.
#[derive(Debug)]
pub struct QuotaPanicGate {
    /// The threshold in percent, with one decimal.
    pub threshold: String,
    pub host: String,
    /// The repo under which the posts go out.
    pub post_repo: String,
    /// Whether the last post that went out announced a panic.
    pub in_panic: bool,
}

impl QuotaPanicGate {
    /// Whether a post is due now that panic is `active`.
    pub open spec fn post_due(self, active: bool) -> bool {
        active != self.in_panic
    }

    /// This gate after a post that announced `active` went out, or did not.
    pub open spec fn after_post(self, active: bool, landed: bool) -> QuotaPanicGate {
        QuotaPanicGate {
            in_panic: if landed {
                active
            } else {
                self.in_panic
            },
            ..self
        }
    }

    pub fn new(threshold: String, host: String, post_repo: String) -> (gate: Self)
        ensures
            gate.threshold == threshold,
            gate.host == host,
            gate.post_repo == post_repo,
            !gate.in_panic,
    {
        QuotaPanicGate { threshold, host, post_repo, in_panic: false }
    }

    /// Whether the most recent sample calls for a panic.
    pub fn quota_panic_active(&self, lookup: SampleLookup) -> (active: bool)
        ensures
            active == calls_for_panic(lookup),
    {
        match lookup {
            SampleLookup::Found { five_hour_over, seven_day_over } => {
                let five = match five_hour_over {
                    Some(over) => over,
                    None => false,
                };
                let seven = match seven_day_over {
                    Some(over) => over,
                    None => false,
                };
                five || seven
            },
            SampleLookup::Absent => false,
            SampleLookup::Failed => false,
        }
    }

    /// The post that is due now that panic is `active`: one for each change,
    /// none while nothing changes.
    pub fn check_and_post(&self, active: bool) -> (post: Option<String>)
        ensures
            post is Some <==> self.post_due(active),
            post matches Some(text) ==> text@ == (if active {
                panic_post(self.host@, self.threshold@)
            } else {
                recovery_post(self.host@, self.threshold@)
            }),
    {
        if active == self.in_panic {
            return None;
        }
        if active {
            let mut text = "QUOTA PANIC on ".to_string();
            text.append(self.host.as_str());
            text.append(": rate-limit sample crossed ");
            text.append(self.threshold.as_str());
            text.append(
                "% threshold. \
                     `legion watch` is halting spawn cycles on this host until usage \
                     drops back below the threshold.",
            );
            Some(text)
        } else {
            let mut text = "QUOTA RECOVERED on ".to_string();
            text.append(self.host.as_str());
            text.append(": rate-limit sample fell below the ");
            text.append(self.threshold.as_str());
            text.append(
                "% \
                     threshold. `legion watch` is resuming spawn cycles.",
            );
            Some(text)
        }
    }

    /// Takes in whether the post went out. One that did not is due again on
    /// the next poll, so that peers are not left with a stale state.
    pub fn on_posted(&mut self, active: bool, landed: bool)
        ensures
            *final(self) == old(self).after_post(active, landed),
    {
        if landed {
            self.in_panic = active;
        }
    }
}

/// What a gate announces over a run of samples, each post going out: the
/// panic state of each post in order.
pub open spec fn announced(in_panic: bool, samples: Seq<bool>) -> Seq<bool>
    decreases samples.len(),
{
    if samples.len() == 0 {
        Seq::empty()
    } else if samples[0] != in_panic {
        seq![samples[0]] + announced(samples[0], samples.drop_first())
    } else {
        announced(in_panic, samples.drop_first())
    }
}

/// Over any run of samples the posts alternate between panic and recovery,
/// the first being the opposite of where things stand: a state is
/// announced once, however long it lasts.
pub proof fn law_posts_alternate(in_panic: bool, samples: Seq<bool>)
    ensures
        announced(in_panic, samples).len() > 0 ==> announced(in_panic, samples)[0] == !in_panic,
        forall|i: int|
            0 <= i < announced(in_panic, samples).len() - 1 ==> #[trigger] announced(
                in_panic,
                samples,
            )[i + 1] != announced(in_panic, samples)[i],
    decreases samples.len(),
{
    if samples.len() > 0 {
        let rest = samples.drop_first();
        if samples[0] != in_panic {
            law_posts_alternate(samples[0], rest);
            let tail = announced(samples[0], rest);
            let all = announced(in_panic, samples);
            assert(all == seq![samples[0]] + tail);
            assert forall|i: int| 0 <= i < all.len() - 1 implies #[trigger] all[i + 1] != all[i] by {
                if i > 0 {
                    assert(all[i] == tail[i - 1]);
                    assert(all[i + 1] == tail[(i - 1) + 1]);
                } else {
                    assert(all[1] == tail[0]);
                }
            }
        } else {
            law_posts_alternate(in_panic, rest);
        }
    }
}

/// A panic state is announced once. A post that went out leaves nothing due
/// while the state lasts, and one that did not leaves the same post due.
pub proof fn law_post_is_retried_until_it_lands(gate: QuotaPanicGate, active: bool, landed: bool)
    ensures
        gate.after_post(active, landed).post_due(active) <==> gate.post_due(active) && !landed,
{
}

/// What guards a spawn cycle.
#[derive(Debug, Clone, Copy, PartialEq, Eq, Structural)]
pub enum SpawnGate {
    /// Every gate is clear.
    Proceed,
    /// The quota panic is active.
    QuotaPanic,
    /// The pressure on the system is at or over its threshold.
    Pressure,
}

/// Evaluates the gates in front of a spawn cycle. The quota panic goes first:
/// it protects the rate limit and is never skipped.
pub fn evaluate_spawn_gate(quota_panic: bool, can_spawn: bool) -> (gate: SpawnGate)
    ensures
        gate == (if quota_panic {
            SpawnGate::QuotaPanic
        } else if can_spawn {
            SpawnGate::Proceed
        } else {
            SpawnGate::Pressure
        }),
{
    if quota_panic {
        SpawnGate::QuotaPanic
    } else if can_spawn {
        SpawnGate::Proceed
    } else {
        SpawnGate::Pressure
    }
}

/// A panic is called for exactly if a sample was found and one of its windows,
/// whichever, is known to be over the threshold.
pub proof fn law_either_window_calls_for_panic(
    gate: &QuotaPanicGate,
    lookup: SampleLookup,
    active: bool,
)
    requires
        call_ensures(QuotaPanicGate::quota_panic_active, (gate, lookup), active),
    ensures
        lookup is Absent || lookup is Failed ==> !active,
        lookup matches SampleLookup::Found { five_hour_over, seven_day_over } ==> {
            &&& five_hour_over == Some(true) ==> active
            &&& seven_day_over == Some(true) ==> active
            &&& five_hour_over != Some(true) && seven_day_over != Some(true) ==> !active
        },
{
}

/// A post is due exactly when the state changed. It says which host it is
/// about, names the threshold, and tells a panic from a recovery.
pub proof fn law_post_tells_host_threshold_and_change(
    gate: &QuotaPanicGate,
    active: bool,
    post: Option<String>,
)
    requires
        call_ensures(QuotaPanicGate::check_and_post, (gate, active), post),
    ensures
        post is Some <==> active != gate.in_panic,
        post matches Some(text) ==> {
            let lead = if active {
                "QUOTA PANIC on "@ + gate.host@ + ": rate-limit sample crossed "@ + gate.threshold@
            } else {
                "QUOTA RECOVERED on "@ + gate.host@ + ": rate-limit sample fell below the "@
                    + gate.threshold@
            };
            text@.len() >= lead.len() && text@.take(lead.len() as int) == lead
        },
{
    if let Some(text) = post {
        let lead = if active {
            "QUOTA PANIC on "@ + gate.host@ + ": rate-limit sample crossed "@ + gate.threshold@
        } else {
            "QUOTA RECOVERED on "@ + gate.host@ + ": rate-limit sample fell below the "@
                + gate.threshold@
        };
        assert(text@.take(lead.len() as int) =~= lead);
    }
}

/// A cycle goes on to spawn exactly if there is no panic and the pressure
/// allows it, and a panic is told apart whatever the pressure.
pub proof fn law_panic_is_never_skipped(quota_panic: bool, can_spawn: bool, gate: SpawnGate)
    requires
        call_ensures(evaluate_spawn_gate, (quota_panic, can_spawn), gate),
    ensures
        gate == SpawnGate::Proceed <==> !quota_panic && can_spawn,
        gate == SpawnGate::QuotaPanic <==> quota_panic,
{
}

/// What was announced is what is remembered, and a post that did not go out
/// changes nothing.
pub proof fn law_announced_state_is_remembered(gate: QuotaPanicGate, active: bool, landed: bool)
    ensures
        landed ==> gate.after_post(active, landed).in_panic == active,
        !landed ==> gate.after_post(active, landed) == gate,
        gate.after_post(active, landed).host == gate.host,
        gate.after_post(active, landed).threshold == gate.threshold,
        gate.after_post(active, landed).post_repo == gate.post_repo,
{
}

} // verus!

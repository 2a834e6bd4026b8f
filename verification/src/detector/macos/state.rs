//! What the watcher reports, and how often it tries its first sample.

use vstd::prelude::*;
use crate::detector::macos::parser::{Detected, DetectedModel};
use crate::platform::{ErrorModel, EventModel, InfoModel, PlatformError, VpnEvent, VpnInfo};
use crate::text::{copy_texts, same_texts, Text};

verus! {

/// How often the first sample is tried. Later ones are not tried again: the
/// next change brings another.
pub const INITIAL_SAMPLE_ATTEMPTS: u32 = 5;

/// What to report of a sample.
#[derive(Debug, Clone, Copy, PartialEq, Eq, Structural)]
pub enum Emit {
    Up,
    Down,
    Nothing,
}

/// Drops samples that carry no news. Any change of the VPN's resolver or of
/// the fallback is news.
#[derive(Debug, PartialEq, Eq)]
pub struct Deduper {
    /// The up reported last; `None` after a down, and at first.
    pub last: Option<Detected>,
}

/// The value of what was reported last.
pub open spec fn last_of(last: Option<Detected>) -> Option<DetectedModel> {
    match last {
        Some(d) => Some(d@),
        None => None,
    }
}

/// What to report of a sample after `last`, and what is then the last.
pub open spec fn news(last: Option<DetectedModel>, sample: DetectedModel) -> (
    Option<DetectedModel>,
    Emit,
) {
    match sample {
        DetectedModel::Down => if last is None {
            (None, Emit::Nothing)
        } else {
            (None, Emit::Down)
        },
        DetectedModel::Up { .. } => if last == Some(sample) {
            (last, Emit::Nothing)
        } else {
            (Some(sample), Emit::Up)
        },
    }
}

impl Default for Deduper {
    fn default() -> (r: Deduper)
        ensures
            r.last is None,
    {
        Deduper { last: None }
    }
}

impl Clone for Detected {
    fn clone(&self) -> (r: Detected)
        ensures
            r@ == self@,
    {
        match self {
            Detected::Up { corp_dns, demote_target } => Detected::Up {
                corp_dns: copy_texts(corp_dns),
                demote_target: copy_texts(demote_target),
            },
            Detected::Down => Detected::Down,
        }
    }
}

fn same_detection(a: &Detected, b: &Detected) -> (r: bool)
    ensures
        r == (a@ == b@),
{
    match (a, b) {
        (
            Detected::Up { corp_dns, demote_target },
            Detected::Up { corp_dns: corp2, demote_target: target2 },
        ) => same_texts(corp_dns, corp2) && same_texts(demote_target, target2),
        (Detected::Down, Detected::Down) => true,
        _ => false,
    }
}

impl Deduper {
    /// What to report of the sample; it is then the last.
    pub fn decide(&mut self, detected: &Detected) -> (r: Emit)
        ensures
            (last_of(final(self).last), r) == news(last_of(old(self).last), detected@),
    {
        match detected {
            Detected::Down => {
                let was_up = self.last.is_some();
                self.last = None;
                if was_up {
                    Emit::Down
                } else {
                    Emit::Nothing
                }
            },
            Detected::Up { .. } => {
                let unchanged = match &self.last {
                    Some(last) => same_detection(last, detected),
                    None => false,
                };
                if unchanged {
                    Emit::Nothing
                } else {
                    self.last = Some(detected.clone());
                    Emit::Up
                }
            },
        }
    }
}

/// The event a report of the sample is, if any.
pub open spec fn event_for(interface: Text, sample: DetectedModel, emit: Emit) -> Option<EventModel> {
    match emit {
        Emit::Nothing => None,
        Emit::Down => Some(EventModel::Down(interface)),
        Emit::Up => match sample {
            DetectedModel::Up { corp_dns, demote_target } => Some(
                EventModel::Up(
                    InfoModel { interface, dns: corp_dns, demote: Some(demote_target) },
                ),
            ),
            DetectedModel::Down => None,
        },
    }
}

/// A sample was taken, or could not be: the event to report, if any. A sample
/// that could not be taken is not a down.
pub fn emit_detected(
    interface: &str,
    dedup: &mut Deduper,
    sample: Result<Detected, PlatformError>,
) -> (r: Option<VpnEvent>)
    ensures
        match sample {
            Ok(detected) => {
                let (last, emit) = news(last_of(old(dedup).last), detected@);
                &&& last_of(final(dedup).last) == last
                &&& event_for(interface@, detected@, emit) == match r {
                    Some(e) => Some(e@),
                    None => None,
                }
            },
            Err(_) => r is None && final(dedup).last == old(dedup).last,
        },
{
    match sample {
        Err(_) => None,
        Ok(detected) => match dedup.decide(&detected) {
            Emit::Nothing => None,
            Emit::Down => Some(VpnEvent::Down { interface_name: interface.to_owned() }),
            Emit::Up => match detected {
                Detected::Up { corp_dns, demote_target } => Some(
                    VpnEvent::Up(
                        VpnInfo {
                            interface_name: interface.to_owned(),
                            dns_servers: corp_dns,
                            demote_target: Some(demote_target),
                        },
                    ),
                ),
                Detected::Down => None,
            },
        },
    }
}

/// What a sample says of the VPN, under this interface's name.
pub open spec fn sampled(interface: Text, sample: Result<DetectedModel, ErrorModel>) -> Result<
    InfoModel,
    ErrorModel,
> {
    match sample {
        Ok(DetectedModel::Up { corp_dns, demote_target }) => Ok(
            InfoModel { interface, dns: corp_dns, demote: Some(demote_target) },
        ),
        Ok(DetectedModel::Down) => Err(ErrorModel::VpnNotFound(interface)),
        Err(e) => Err(e),
    }
}

/// The macOS detector.
pub struct MacosDetector;

impl MacosDetector {
    /// What a sample says of the VPN, under this interface's name; the name
    /// is not looked at.
    pub fn detect(&self, interface: &str, sample: Result<Detected, PlatformError>) -> (r: Result<
        VpnInfo,
        PlatformError,
    >)
        ensures
            match sample {
                Ok(detected) => match detected@ {
                    DetectedModel::Up { corp_dns, demote_target } => r is Ok && (r->Ok_0)@ == (
                    InfoModel {
                        interface: interface@,
                        dns: corp_dns,
                        demote: Some(demote_target),
                    }),
                    DetectedModel::Down => r is Err && (r->Err_0)@ == ErrorModel::VpnNotFound(
                        interface@,
                    ),
                },
                Err(e) => r is Err && (r->Err_0)@ == e@,
            },
            sampled(
                interface@,
                match sample {
                    Ok(detected) => Ok(detected@),
                    Err(e) => Err(e@),
                },
            ) == match r {
                Ok(info) => Ok(info@),
                Err(e) => Err(e@),
            },
    {
        match sample {
            Err(e) => Err(e),
            Ok(Detected::Up { corp_dns, demote_target }) => Ok(
                VpnInfo {
                    interface_name: interface.to_owned(),
                    dns_servers: corp_dns,
                    demote_target: Some(demote_target),
                },
            ),
            Ok(Detected::Down) => Err(PlatformError::VpnNotFound(interface.to_owned())),
        }
    }
}

/// What to do once a sample has been tried.
#[derive(Debug, PartialEq, Eq)]
pub enum RetryStep<T, E> {
    /// Pause, and try again: the next try is the one of this number.
    Again { tried: u32 },
    /// This is the sample, or why there is none.
    Finished(Result<T, E>),
}

/// What to do once try number `tried`, of at most `attempts`, gave `result`.
pub open spec fn retry_step<T, E>(
    attempts: u32,
    tried: u32,
    result: Result<T, E>,
) -> RetryStep<T, E> {
    if result is Err && tried < attempts {
        RetryStep::Again { tried: (tried + 1) as u32 }
    } else {
        RetryStep::Finished(result)
    }
}

/// Try number `tried` gave `result`; the first try is number 1. A failure is
/// tried again after a pause, until there have been `attempts` tries. There is
/// always a first try, whatever `attempts` says.
pub fn sample_with_retry<T, E>(attempts: u32, tried: u32, result: Result<T, E>) -> (r: RetryStep<
    T,
    E,
>)
    ensures
        r == retry_step(attempts, tried, result),
{
    match result {
        Err(e) => if tried < attempts {
            RetryStep::Again { tried: tried + 1 }
        } else {
            RetryStep::Finished(Err(e))
        },
        Ok(sample) => RetryStep::Finished(Ok(sample)),
    }
}

/// How trying a sample has gone.
pub struct RetryRun<T, E> {
    /// How often a sample was read.
    pub reads: nat,
    /// How often there was a pause. Each comes before another read.
    pub pauses: nat,
    /// What it came to; `None` if another read is still due.
    pub result: Option<Result<T, E>>,
}

/// Try until finished, beginning with try number `tried`, the reads giving
/// `outcomes` in turn.
pub open spec fn retry_run<T, E>(
    attempts: u32,
    tried: u32,
    outcomes: Seq<Result<T, E>>,
) -> RetryRun<T, E>
    decreases outcomes.len(),
{
    if outcomes.len() == 0 {
        RetryRun { reads: 0, pauses: 0, result: None }
    } else {
        match retry_step(attempts, tried, outcomes[0]) {
            RetryStep::Finished(result) => RetryRun { reads: 1, pauses: 0, result: Some(result) },
            RetryStep::Again { tried: next } => {
                let rest = retry_run(attempts, next, outcomes.drop_first());
                RetryRun { reads: rest.reads + 1, pauses: rest.pauses + 1, result: rest.result }
            },
        }
    }
}

/// The number of tries there are at most: at least one, whatever is asked.
pub open spec fn most_tries(attempts: u32) -> int {
    if attempts == 0 {
        1
    } else {
        attempts as int
    }
}

proof fn lemma_retry_run<T, E>(
    attempts: u32,
    tried: u32,
    outcomes: Seq<Result<T, E>>,
    k: int,
)
    requires
        1 <= k <= outcomes.len(),
        1 <= tried,
        tried + k - 1 <= most_tries(attempts),
        forall|i: int| 0 <= i < k - 1 ==> (#[trigger] outcomes[i]) is Err,
        outcomes[k - 1] is Ok || tried + k - 1 == most_tries(attempts),
    ensures
        retry_run(attempts, tried, outcomes) == (RetryRun {
            reads: k as nat,
            pauses: (k - 1) as nat,
            result: Some(outcomes[k - 1]),
        }),
    decreases k,
{
    if k > 1 {
        assert(outcomes[0] is Err);
        let rest = outcomes.drop_first();
        assert(rest[k - 2] == outcomes[k - 1]);
        assert forall|i: int| 0 <= i < k - 2 implies (#[trigger] rest[i]) is Err by {
            assert(rest[i] == outcomes[i + 1]);
        }
        lemma_retry_run(attempts, (tried + 1) as u32, rest, k - 1);
    }
}

/// If the `k`-th read is the first that succeeds, and there may be that many,
/// it is what trying comes to: after exactly `k` reads, with a pause between
/// each two of them and no other.
pub proof fn law_retrying_gives_the_first_success<T, E>(
    attempts: u32,
    outcomes: Seq<Result<T, E>>,
    k: int,
)
    requires
        1 <= k <= outcomes.len(),
        k <= most_tries(attempts),
        forall|i: int| 0 <= i < k - 1 ==> (#[trigger] outcomes[i]) is Err,
        outcomes[k - 1] is Ok,
    ensures
        retry_run(attempts, 1, outcomes) == (RetryRun {
            reads: k as nat,
            pauses: (k - 1) as nat,
            result: Some(outcomes[k - 1]),
        }),
{
    lemma_retry_run(attempts, 1, outcomes, k);
}

/// If every read there may be fails, the last failure is what trying comes
/// to: after exactly that many reads, with a pause between each two of them
/// and no other.
pub proof fn law_retrying_gives_up_with_the_last_failure<T, E>(
    attempts: u32,
    outcomes: Seq<Result<T, E>>,
)
    requires
        most_tries(attempts) <= outcomes.len(),
        forall|i: int| 0 <= i < most_tries(attempts) ==> (#[trigger] outcomes[i]) is Err,
    ensures
        retry_run(attempts, 1, outcomes) == (RetryRun {
            reads: most_tries(attempts) as nat,
            pauses: (most_tries(attempts) - 1) as nat,
            result: Some(outcomes[most_tries(attempts) - 1]),
        }),
{
    lemma_retry_run(attempts, 1, outcomes, most_tries(attempts));
}

/// Two samples in a row that are equal are reported at most once.
pub proof fn law_equal_samples_are_reported_once(
    last: Option<DetectedModel>,
    sample: DetectedModel,
)
    ensures
        news(news(last, sample).0, sample) == (news(last, sample).0, Emit::Nothing),
{
}

/// A change of the VPN's resolver or of the fallback is always reported.
pub proof fn law_changes_are_reported(
    last: Option<DetectedModel>,
    corp_dns: Seq<Text>,
    demote_target: Seq<Text>,
)
    requires
        last != Some(DetectedModel::Up { corp_dns, demote_target }),
    ensures
        news(last, DetectedModel::Up { corp_dns, demote_target }).1 == Emit::Up,
{
}

/// What is reported of a sample carries all of it: the VPN's resolvers, and
/// those to fall back to. A down is reported only after an up.
pub proof fn law_reports_carry_the_sample(
    last: Option<DetectedModel>,
    interface: Text,
    corp_dns: Seq<Text>,
    demote_target: Seq<Text>,
)
    ensures
        ({
            let up = DetectedModel::Up { corp_dns, demote_target };
            let (after, emit) = news(last, up);
            &&& after == Some(up)
            &&& last == Some(up) ==> event_for(interface, up, emit) is None
            &&& last != Some(up) ==> event_for(interface, up, emit) == Some(
                EventModel::Up(InfoModel { interface, dns: corp_dns, demote: Some(demote_target) }),
            )
        }),
        ({
            let (after, emit) = news(last, DetectedModel::Down);
            &&& after is None
            &&& last is None ==> event_for(interface, DetectedModel::Down, emit) is None
            &&& last is Some ==> event_for(interface, DetectedModel::Down, emit) == Some(
                EventModel::Down(interface),
            )
        }),
        INITIAL_SAMPLE_ATTEMPTS == 5,
{
}

/// A VPN that goes down and comes up again is reported each time, also if
/// nothing else changed.
pub proof fn law_a_reconnect_is_reported_again(last: Option<DetectedModel>, up: DetectedModel)
    requires
        up is Up,
    ensures
        ({
            let first = news(last, up).0;
            let gone = news(first, DetectedModel::Down);
            &&& gone.1 == Emit::Down
            &&& news(gone.0, up).1 == Emit::Up
        }),
{
}

/// A VPN that a sample finds up is known with all its resolvers and those to
/// fall back to; one that is down is not found, and one that could not be
/// looked at fails for that reason.
pub proof fn law_a_sample_tells_of_the_vpn(
    interface: Text,
    corp_dns: Seq<Text>,
    demote_target: Seq<Text>,
    e: ErrorModel,
)
    ensures
        sampled(interface, Ok(DetectedModel::Up { corp_dns, demote_target })) matches Ok(info)
            && info.interface == interface && info.dns == corp_dns && info.demote == Some(
            demote_target,
        ),
        sampled(interface, Ok(DetectedModel::Down)) == Err::<InfoModel, ErrorModel>(
            ErrorModel::VpnNotFound(interface),
        ),
        sampled(interface, Err(e)) == Err::<InfoModel, ErrorModel>(e),
{
}

} // verus!

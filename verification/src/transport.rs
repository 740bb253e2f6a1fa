//! Decisions around the transport: latency probes, request retries and
//! where downloaded cover art goes.
use vstd::prelude::*;
use crate::client::{quality_of, NetworkQuality};
use crate::text::{chars_of, starts_with, string_from_range};

verus! {

/// The quality of a server that answered a ping in `ms` milliseconds, or not at all.
pub fn network_quality_of(ms: Option<u128>) -> (res: NetworkQuality)
    ensures
        res == match ms {
            Some(m) => quality_of(m as int),
            None => NetworkQuality::CzechTrain,
        },
{
    match ms {
        Some(m) => NetworkQuality::classify(m),
        None => NetworkQuality::CzechTrain,
    }
}

/// `s` without the `/` characters at its end.
pub open spec fn trim_trailing_slashes(s: Seq<char>) -> Seq<char>
    decreases s.len(),
{
    if s.len() > 0 && s.last() == '/' {
        trim_trailing_slashes(s.drop_last())
    } else {
        s
    }
}

/// The base URL a probe talks to: the configured one without trailing slashes.
pub fn probe_base(base: &str) -> (res: String)
    ensures
        res@ == trim_trailing_slashes(base@),
{
    let chars = chars_of(base);
    let mut end = chars.len();
    assert(chars@.subrange(0, chars@.len() as int) =~= chars@);
    while end > 0 && chars[end - 1] == '/'
        invariant
            end <= chars@.len(),
            trim_trailing_slashes(chars@) == trim_trailing_slashes(chars@.subrange(0, end as int)),
        decreases end,
    {
        assert(chars@.subrange(0, end as int).drop_last() =~= chars@.subrange(0, end - 1));
        end = end - 1;
    }
    proof {
        assert(chars@.subrange(0, chars@.len() as int) =~= chars@);
    }
    string_from_range(&chars, 0, end)
}

/// The ping URL a latency probe requests (it carries no credentials).
pub open spec fn probe_url_of(base: Seq<char>) -> Seq<char> {
    trim_trailing_slashes(base) + "/rest/ping.view?v=1.16.1&c=navidrome-tui&f=json"@
}

/// Builds the ping URL of a latency probe.
pub fn probe_url(base: &str) -> (res: String)
    ensures
        res@ == probe_url_of(base@),
{
    let mut url = probe_base(base);
    url.append("/rest/ping.view?v=1.16.1&c=navidrome-tui&f=json");
    url
}

/// The plain-HTTP address to try when an `https://` server does not answer.
pub fn http_fallback(base: &str) -> (res: Option<String>)
    ensures
        match res {
            Some(f) => "https://"@.is_prefix_of(base@) && f@ == "http://"@ + base@.skip(8),
            None => !"https://"@.is_prefix_of(base@),
        },
{
    if starts_with(base, "https://") {
        proof {
            reveal_strlit("https://");
        }
        let chars = chars_of(base);
        let mut f = "http://".to_string();
        let rest = string_from_range(&chars, 8, chars.len());
        f.append(rest.as_str());
        Some(f)
    } else {
        None
    }
}

/// Where a server probe stands. `Probing` and `ProbingFallback` ask for a
/// latency probe of the address they hold, `Asking` asks the user whether to
/// switch to plain HTTP, `Chosen` is the result and `Declined` ends the program.
pub enum ProbeState {
    /// The configured address (without trailing slashes) is being probed.
    Probing { base: String },
    /// The configured address did not answer; its plain-HTTP form is being probed.
    ProbingFallback { base: String, fallback: String },
    /// Only the plain-HTTP form answered, in `ms` milliseconds.
    Asking { fallback: String, ms: u128 },
    /// The address to use and the quality measured for it.
    Chosen { base: String, quality: NetworkQuality },
    /// The user declined the switch to plain HTTP.
    Declined,
}

/// What came back from the step a probe asked for.
#[derive(Debug, Clone, Copy, PartialEq, Eq, Structural)]
pub enum ProbeEvent {
    /// A latency probe answered in this many milliseconds, or not at all.
    Latency(Option<u128>),
    /// The user's answer to the switch to plain HTTP (no answer counts as no).
    Switch(bool),
}

/// The mathematical form of a probe state.
pub enum ProbeStateView {
    Probing { base: Seq<char> },
    ProbingFallback { base: Seq<char>, fallback: Seq<char> },
    Asking { fallback: Seq<char>, ms: u128 },
    Chosen { base: Seq<char>, quality: NetworkQuality },
    Declined,
}

impl View for ProbeState {
    type V = ProbeStateView;

    open spec fn view(&self) -> ProbeStateView {
        match self {
            ProbeState::Probing { base } => ProbeStateView::Probing { base: base@ },
            ProbeState::ProbingFallback { base, fallback } => ProbeStateView::ProbingFallback {
                base: base@,
                fallback: fallback@,
            },
            ProbeState::Asking { fallback, ms } => ProbeStateView::Asking {
                fallback: fallback@,
                ms: *ms,
            },
            ProbeState::Chosen { base, quality } => ProbeStateView::Chosen {
                base: base@,
                quality: *quality,
            },
            ProbeState::Declined => ProbeStateView::Declined,
        }
    }
}

/// The plain-HTTP form of an `https://` address, if it is one.
pub open spec fn http_form(base: Seq<char>) -> Option<Seq<char>> {
    if "https://"@.is_prefix_of(base) {
        Some("http://"@ + base.skip(8))
    } else {
        None
    }
}

/// The probe state after `event`. The configured address is taken when it
/// answers; else its plain-HTTP form is tried, and taken only if it answers and
/// the user agrees; if neither answers, the configured address is kept with the
/// slowest quality. An event that the state did not ask for changes nothing.
pub open spec fn probe_transition(s: ProbeStateView, event: ProbeEvent) -> ProbeStateView {
    match (s, event) {
        (ProbeStateView::Probing { base }, ProbeEvent::Latency(Some(ms))) => ProbeStateView::Chosen {
            base,
            quality: quality_of(ms as int),
        },
        (ProbeStateView::Probing { base }, ProbeEvent::Latency(None)) => match http_form(base) {
            Some(fallback) => ProbeStateView::ProbingFallback { base, fallback },
            None => ProbeStateView::Chosen { base, quality: NetworkQuality::CzechTrain },
        },
        (
            ProbeStateView::ProbingFallback { base, fallback },
            ProbeEvent::Latency(Some(ms)),
        ) => ProbeStateView::Asking { fallback, ms },
        (ProbeStateView::ProbingFallback { base, fallback }, ProbeEvent::Latency(None)) => {
            ProbeStateView::Chosen { base, quality: NetworkQuality::CzechTrain }
        },
        (ProbeStateView::Asking { fallback, ms }, ProbeEvent::Switch(true)) => ProbeStateView::Chosen {
            base: fallback,
            quality: quality_of(ms as int),
        },
        (ProbeStateView::Asking { fallback, ms }, ProbeEvent::Switch(false)) => ProbeStateView::Declined,
        _ => s,
    }
}

/// The probe state after the events of `events`, one after the other.
pub open spec fn probe_run(s: ProbeStateView, events: Seq<ProbeEvent>) -> ProbeStateView
    decreases events.len(),
{
    if events.len() == 0 {
        s
    } else {
        probe_run(probe_transition(s, events[0]), events.skip(1))
    }
}

/// What every state of a probe of `base` keeps: the addresses it holds are
/// `base` or its plain-HTTP form, and the latter is chosen only if `agreed`.
spec fn probe_keeps(s: ProbeStateView, base: Seq<char>, agreed: bool) -> bool {
    match s {
        ProbeStateView::Probing { base: b } => b == base,
        ProbeStateView::ProbingFallback { base: b, fallback } => b == base && http_form(base)
            == Some(fallback),
        ProbeStateView::Asking { fallback, .. } => http_form(base) == Some(fallback),
        ProbeStateView::Chosen { base: b, .. } => b == base || (http_form(base) == Some(b)
            && agreed),
        ProbeStateView::Declined => true,
    }
}

proof fn lemma_probe_run_keeps(
    s: ProbeStateView,
    base: Seq<char>,
    agreed: bool,
    events: Seq<ProbeEvent>,
)
    requires
        probe_keeps(s, base, agreed),
    ensures
        probe_keeps(probe_run(s, events), base, agreed || events.contains(ProbeEvent::Switch(true))),
    decreases events.len(),
{
    if events.len() > 0 {
        let e = events[0];
        let now = agreed || e == ProbeEvent::Switch(true);
        assert(probe_keeps(probe_transition(s, e), base, now));
        lemma_probe_run_keeps(probe_transition(s, e), base, now, events.skip(1));
        if events.skip(1).contains(ProbeEvent::Switch(true)) {
            let k = choose|k: int| 0 <= k < events.skip(1).len() && events.skip(1)[k] == ProbeEvent::Switch(true);
            assert(events[k + 1] == ProbeEvent::Switch(true));
        }
        if e == ProbeEvent::Switch(true) {
            assert(events[0] == ProbeEvent::Switch(true));
        }
    }
}

/// Whatever comes back from the probes and the user, a probe of `base` ends,
/// if it chooses an address, with `base` (without trailing slashes) or with its
/// plain-HTTP form, and with the latter only after the user agreed to switch.
pub proof fn lemma_probe_switches_only_with_consent(base: Seq<char>, events: Seq<ProbeEvent>)
    ensures
        match probe_run(ProbeStateView::Probing { base: trim_trailing_slashes(base) }, events) {
            ProbeStateView::Chosen { base: b, .. } => b == trim_trailing_slashes(base) || (http_form(
                trim_trailing_slashes(base),
            ) == Some(b) && events.contains(ProbeEvent::Switch(true))),
            _ => true,
        },
{
    lemma_probe_run_keeps(
        ProbeStateView::Probing { base: trim_trailing_slashes(base) },
        trim_trailing_slashes(base),
        false,
        events,
    );
}

/// The quality recorded for an address that answered in `ms` milliseconds:
/// up to 300 ms is normal, up to 1200 ms slow, anything longer the slowest
/// class. It holds when the configured address answers at once, and when
/// the user agrees to the plain-HTTP form that answered in `ms`.
pub proof fn law_probe_quality_follows_latency(base: Seq<char>, fallback: Seq<char>, ms: u128)
    ensures
        ({
            let q = if ms <= 300 {
                NetworkQuality::Normal
            } else if ms <= 1200 {
                NetworkQuality::Slow
            } else {
                NetworkQuality::CzechTrain
            };
            &&& probe_transition(ProbeStateView::Probing { base }, ProbeEvent::Latency(Some(ms)))
                == (ProbeStateView::Chosen { base, quality: q })
            &&& probe_transition(ProbeStateView::Asking { fallback, ms }, ProbeEvent::Switch(true))
                == (ProbeStateView::Chosen { base: fallback, quality: q })
        }),
{
}

/// A probe of a configured address that answers keeps that address (without
/// trailing slashes) and never tries plain HTTP, whatever comes after.
pub proof fn law_probe_answering_server_kept(
    base: Seq<char>,
    ms: u128,
    later: Seq<ProbeEvent>,
)
    ensures
        probe_run(
            ProbeStateView::Probing { base: trim_trailing_slashes(base) },
            seq![ProbeEvent::Latency(Some(ms))] + later,
        ) == (ProbeStateView::Chosen {
            base: trim_trailing_slashes(base),
            quality: if ms <= 300 {
                NetworkQuality::Normal
            } else if ms <= 1200 {
                NetworkQuality::Slow
            } else {
                NetworkQuality::CzechTrain
            },
        }),
{
    let events = seq![ProbeEvent::Latency(Some(ms))] + later;
    assert(events[0] == ProbeEvent::Latency(Some(ms)));
    assert(events.skip(1) =~= later);
    lemma_chosen_stays(
        probe_transition(
            ProbeStateView::Probing { base: trim_trailing_slashes(base) },
            ProbeEvent::Latency(Some(ms)),
        ),
        later,
    );
}

/// Once an address is chosen, no further event changes the probe.
proof fn lemma_chosen_stays(s: ProbeStateView, events: Seq<ProbeEvent>)
    requires
        s is Chosen,
    ensures
        probe_run(s, events) == s,
    decreases events.len(),
{
    if events.len() > 0 {
        lemma_chosen_stays(probe_transition(s, events[0]), events.skip(1));
    }
}

impl ProbeState {
    /// The first state of a probe of the configured address `base`.
    pub fn start(base: &str) -> (res: Self)
        ensures
            res@ == (ProbeStateView::Probing { base: trim_trailing_slashes(base@) }),
    {
        ProbeState::Probing { base: probe_base(base) }
    }

    /// The state after `event`.
    pub fn next(self, event: ProbeEvent) -> (res: Self)
        ensures
            res@ == probe_transition(self@, event),
    {
        match self {
            ProbeState::Probing { base } => match event {
                ProbeEvent::Latency(Some(ms)) => ProbeState::Chosen {
                    base,
                    quality: NetworkQuality::classify(ms),
                },
                ProbeEvent::Latency(None) => match http_fallback(base.as_str()) {
                    Some(fallback) => ProbeState::ProbingFallback { base, fallback },
                    None => ProbeState::Chosen { base, quality: NetworkQuality::CzechTrain },
                },
                ProbeEvent::Switch(_) => ProbeState::Probing { base },
            },
            ProbeState::ProbingFallback { base, fallback } => match event {
                ProbeEvent::Latency(Some(ms)) => ProbeState::Asking { fallback, ms },
                ProbeEvent::Latency(None) => ProbeState::Chosen {
                    base,
                    quality: NetworkQuality::CzechTrain,
                },
                ProbeEvent::Switch(_) => ProbeState::ProbingFallback { base, fallback },
            },
            ProbeState::Asking { fallback, ms } => match event {
                ProbeEvent::Switch(true) => ProbeState::Chosen {
                    base: fallback,
                    quality: NetworkQuality::classify(ms),
                },
                ProbeEvent::Switch(false) => ProbeState::Declined,
                ProbeEvent::Latency(_) => ProbeState::Asking { fallback, ms },
            },
            other => other,
        }
    }
}

/// What a request attempt came back with.
#[derive(Debug, Clone, Copy, PartialEq, Eq, Structural)]
pub enum AttemptOutcome {
    /// A response with a success status.
    Success,
    /// A response with a client-error status.
    ClientError,
    /// A response with any other status.
    OtherStatus,
    /// No response at all.
    Failed,
}

/// What to do after an attempt.
#[derive(Debug, Clone, Copy, PartialEq, Eq, Structural)]
pub enum RetryStep {
    /// Decode the response that came back.
    Decode,
    /// Wait this many milliseconds, then try again.
    Wait(u64),
    /// Send one last time and take whatever comes back.
    LastTry,
}

/// How many failed attempts lead to the last try.
pub const MAX_RETRIES: usize = 3;

/// The step after an attempt, given how many attempts had failed before it.
pub open spec fn retry_step_of(failures: nat, outcome: AttemptOutcome) -> RetryStep {
    match outcome {
        AttemptOutcome::Success | AttemptOutcome::ClientError => RetryStep::Decode,
        _ => if failures + 1 >= 3 {
            RetryStep::LastTry
        } else {
            RetryStep::Wait(((failures + 1) * 500) as u64)
        },
    }
}

/// Retries a request whose attempts fail or meet a server-side status.
pub struct RetryState {
    failures: usize,
}

impl RetryState {
    /// How many attempts have failed so far.
    pub closed spec fn failed_attempts(self) -> nat {
        self.failures as nat
    }

    #[verifier::type_invariant]
    spec fn below_limit(self) -> bool {
        self.failures < 3
    }

    /// No attempt has been made yet.
    pub fn new() -> (res: Self)
        ensures
            res.failed_attempts() == 0,
    {
        RetryState { failures: 0 }
    }

    /// The step after an attempt that came back with `outcome`; the delays
    /// grow by half a second per failure.
    pub fn next(&mut self, outcome: AttemptOutcome) -> (res: RetryStep)
        ensures
            res == retry_step_of(old(self).failed_attempts(), outcome),
            final(self).failed_attempts() == match res {
                RetryStep::Wait(_) => old(self).failed_attempts() + 1,
                _ => old(self).failed_attempts(),
            },
    {
        proof {
            use_type_invariant(&*self);
        }
        match outcome {
            AttemptOutcome::Success | AttemptOutcome::ClientError => RetryStep::Decode,
            _ => {
                let failures = self.failures + 1;
                if failures >= MAX_RETRIES {
                    RetryStep::LastTry
                } else {
                    self.failures = failures;
                    RetryStep::Wait((failures as u64) * 500)
                }
            },
        }
    }
}

/// A failed attempt (no response) is retried exactly like one that met a
/// server-side status: after `k` earlier failures it waits `(k + 1) * 500`
/// milliseconds while fewer than three attempts have failed, and only the
/// third failure leads to the last try. Success and client errors are decoded.
pub proof fn law_failed_attempt_is_retried(k: nat)
    ensures
        retry_step_of(k, AttemptOutcome::Failed) == retry_step_of(k, AttemptOutcome::OtherStatus),
        k + 1 < 3 ==> retry_step_of(k, AttemptOutcome::Failed) == RetryStep::Wait(((k + 1) * 500) as u64),
        k + 1 >= 3 ==> retry_step_of(k, AttemptOutcome::Failed) == RetryStep::LastTry,
        retry_step_of(k, AttemptOutcome::Success) == RetryStep::Decode,
        retry_step_of(k, AttemptOutcome::ClientError) == RetryStep::Decode,
{
}

/// The file extension of cover art sent with content type `content_type`
/// (a missing header counts as empty); JPEG is assumed when unknown.
pub open spec fn cover_extension_of(content_type: Seq<char>) -> Seq<char> {
    if content_type == "image/png"@ {
        "png"@
    } else if content_type == "image/jpeg"@ {
        "jpeg"@
    } else if content_type == "image/jpg"@ {
        "jpg"@
    } else if content_type == "image/webp"@ {
        "webp"@
    } else {
        "jpg"@
    }
}

/// Picks the file extension for cover art from its content type.
pub fn cover_extension(content_type: &str) -> (res: String)
    ensures
        res@ == cover_extension_of(content_type@),
{
    let ct = content_type.to_owned();
    if ct.eq(&"image/png".to_string()) {
        "png".to_string()
    } else if ct.eq(&"image/jpeg".to_string()) {
        "jpeg".to_string()
    } else if ct.eq(&"image/jpg".to_string()) {
        "jpg".to_string()
    } else if ct.eq(&"image/webp".to_string()) {
        "webp".to_string()
    } else {
        "jpg".to_string()
    }
}

/// `<item>.<extension>`: the name a cover is stored under.
pub fn cover_file_name(item_id: &str, extension: &str) -> (res: String)
    ensures
        res@ == item_id@ + "."@ + extension@,
{
    let mut name = item_id.to_owned();
    name.append(".");
    name.append(extension);
    name
}

/// `<item>.<extension>.part`: where a cover is written before it is renamed.
pub fn cover_part_file_name(item_id: &str, extension: &str) -> (res: String)
    ensures
        res@ == item_id@ + "."@ + extension@ + ".part"@,
{
    let mut name = cover_file_name(item_id, extension);
    name.append(".part");
    name
}


} // verus!

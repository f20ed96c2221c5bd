//! The cache of the most recent upstream observation, the fetch outcomes,
//! and how one fetch outcome is folded into the cache.

use vstd::prelude::*;
use vstd::string::StringExecFns;
use crate::text::{lemma_spec_decimal_len, spec_decimal, append_decimal};

verus! {

/// Mathematical model of one cache state: the three fields of the most
/// recent upstream observation.
#[verifier::ext_equal]
pub struct CacheView {
    pub metrics_text: Seq<char>,
    pub reachable: bool,
    pub last_error: Seq<char>,
}

/// The state the cache is created in: no text, unreachable, no error.
pub open spec fn init_cache_view() -> CacheView {
    CacheView { metrics_text: Seq::empty(), reachable: false, last_error: Seq::empty() }
}

/// The invariant restored by every fetch: the gateway counts as reachable
/// exactly when no error message is recorded.
pub open spec fn cache_consistent(c: CacheView) -> bool {
    c.reachable <==> c.last_error.len() == 0
}

/// What holds of every state the cache can be in, the initial one included:
/// a recorded error message always means the gateway was unreachable.
pub open spec fn cache_wf(c: CacheView) -> bool {
    c.reachable ==> c.last_error.len() == 0
}

/// The most recent upstream observation: raw metrics text, whether the
/// gateway was reachable, and the last error message. There is no
/// single-field mutation: `write` replaces the whole triple.
pub struct MetricsCache {
    metrics_text: String,
    reachable: bool,
    last_error: String,
}

impl View for MetricsCache {
    type V = CacheView;

    closed spec fn view(&self) -> CacheView {
        CacheView {
            metrics_text: self.metrics_text@,
            reachable: self.reachable,
            last_error: self.last_error@,
        }
    }
}

/// The observed result of one upstream fetch attempt, as plain values.
pub enum FetchOutcome {
    /// A response with a success status whose body was read in full.
    Success { body: String },
    /// The connection could not be established or completed (DNS failure,
    /// connection refused, timeout).
    TransportFailure { details: String },
    /// A response arrived, but with a non-success status code.
    UpstreamStatus { code: u16 },
    /// A response arrived with a success status, but reading its body failed.
    BodyReadFailure { details: String },
}

/// Model of a fetch outcome.
#[verifier::ext_equal]
pub enum OutcomeView {
    Success { body: Seq<char> },
    TransportFailure { details: Seq<char> },
    UpstreamStatus { code: u16 },
    BodyReadFailure { details: Seq<char> },
}

impl View for FetchOutcome {
    type V = OutcomeView;

    open spec fn view(&self) -> OutcomeView {
        match self {
            FetchOutcome::Success { body } => OutcomeView::Success { body: body@ },
            FetchOutcome::TransportFailure { details } => OutcomeView::TransportFailure {
                details: details@,
            },
            FetchOutcome::UpstreamStatus { code } => OutcomeView::UpstreamStatus { code: *code },
            FetchOutcome::BodyReadFailure { details } => OutcomeView::BodyReadFailure {
                details: details@,
            },
        }
    }
}

/// The error message each outcome leaves in the cache; empty on success.
pub open spec fn error_message_of(o: OutcomeView) -> Seq<char> {
    match o {
        OutcomeView::Success { .. } => Seq::empty(),
        OutcomeView::TransportFailure { details } => "Connection failed: "@ + details,
        OutcomeView::UpstreamStatus { code } => "HTTP "@ + spec_decimal(code as int),
        OutcomeView::BodyReadFailure { details } => "Failed to read response: "@ + details,
    }
}

/// How one fetch outcome replaces the cached triple: success stores the new
/// body and clears the error; every failure keeps the old text, marks the
/// gateway unreachable and records the error message.
pub open spec fn apply_fetch_spec(c: CacheView, o: OutcomeView) -> CacheView {
    match o {
        OutcomeView::Success { body } => CacheView {
            metrics_text: body,
            reachable: true,
            last_error: Seq::empty(),
        },
        _ => CacheView {
            metrics_text: c.metrics_text,
            reachable: false,
            last_error: error_message_of(o),
        },
    }
}

/// No failure leaves an empty error message behind.
proof fn lemma_error_message_nonempty(o: OutcomeView)
    requires
        !(o is Success),
    ensures
        error_message_of(o).len() > 0,
{
    reveal_strlit("Connection failed: ");
    reveal_strlit("HTTP ");
    reveal_strlit("Failed to read response: ");
    if let OutcomeView::UpstreamStatus { code } = o {
        lemma_spec_decimal_len(code as int);
    }
}

/// After any single fetch, reachability and the recorded error agree:
/// the cache is reachable exactly when the error message is empty.
pub proof fn lemma_fetch_restores_invariant(c: CacheView, o: OutcomeView)
    ensures
        cache_consistent(apply_fetch_spec(c, o)),
{
    if !(o is Success) {
        lemma_error_message_nonempty(o);
    }
}

/// The cache after a whole sequence of fetches, applied in order.
pub open spec fn apply_all(c: CacheView, os: Seq<OutcomeView>) -> CacheView
    decreases os.len(),
{
    if os.len() == 0 {
        c
    } else {
        apply_all(apply_fetch_spec(c, os[0]), os.drop_first())
    }
}

/// For every starting state and every non-empty sequence of fetch outcomes,
/// the invariant holds after the last fetch.
pub proof fn lemma_invariant_after_any_fetch_sequence(c: CacheView, os: Seq<OutcomeView>)
    requires
        os.len() > 0,
    ensures
        cache_consistent(apply_all(c, os)),
    decreases os.len(),
{
    if os.len() == 1 {
        lemma_fetch_restores_invariant(c, os[0]);
        assert(os.drop_first().len() == 0);
        assert(apply_all(c, os) == apply_all(apply_fetch_spec(c, os[0]), os.drop_first()));
        assert(apply_all(c, os) == apply_fetch_spec(c, os[0]));
    } else {
        lemma_invariant_after_any_fetch_sequence(apply_fetch_spec(c, os[0]), os.drop_first());
        assert(apply_all(c, os) == apply_all(apply_fetch_spec(c, os[0]), os.drop_first()));
    }
}

/// After any fetch of a sequence — not only the last one — the invariant
/// holds: every non-empty prefix of fetch outcomes leaves a consistent cache.
pub proof fn lemma_invariant_after_each_fetch(c: CacheView, os: Seq<OutcomeView>, i: int)
    requires
        1 <= i <= os.len(),
    ensures
        cache_consistent(apply_all(c, os.take(i))),
{
    lemma_invariant_after_any_fetch_sequence(c, os.take(i));
}

impl MetricsCache {
    /// A cache with no successful fetch yet.
    pub fn new() -> (c: Self)
        ensures
            c@ == init_cache_view(),
    {
        let c = MetricsCache {
            metrics_text: String::new(),
            reachable: false,
            last_error: String::new(),
        };
        proof {
            assert(c@ =~= init_cache_view());
        }
        c
    }

    /// A snapshot of all three fields at once.
    pub fn read(&self) -> (r: (String, bool, String))
        ensures
            r.0@ == self@.metrics_text,
            r.1 == self@.reachable,
            r.2@ == self@.last_error,
    {
        (self.metrics_text.clone(), self.reachable, self.last_error.clone())
    }

    /// Replace all three fields at once.
    pub fn write(&mut self, text: String, reachable: bool, error: String)
        ensures
            final(self)@ == (CacheView {
                metrics_text: text@,
                reachable: reachable,
                last_error: error@,
            }),
    {
        self.metrics_text = text;
        self.reachable = reachable;
        self.last_error = error;
    }

    /// Fold one fetch outcome into the cache: success stores the body and
    /// clears the error; each failure keeps the old text and records its
    /// error message. Always restores the reachable-iff-no-error invariant.
    pub fn apply_fetch(&mut self, outcome: &FetchOutcome)
        ensures
            final(self)@ == apply_fetch_spec(old(self)@, outcome@),
            cache_consistent(final(self)@),
    {
        match outcome {
            FetchOutcome::Success { body } => {
                self.write(body.clone(), true, String::new());
            },
            FetchOutcome::TransportFailure { details } => {
                let mut msg = String::new();
                msg.append("Connection failed: ");
                msg.append(details.as_str());
                let text = self.metrics_text.clone();
                self.write(text, false, msg);
                proof {
                    assert(msg@ =~= error_message_of(outcome@));
                }
            },
            FetchOutcome::UpstreamStatus { code } => {
                let mut msg = String::new();
                msg.append("HTTP ");
                append_decimal(&mut msg, *code);
                let text = self.metrics_text.clone();
                self.write(text, false, msg);
                proof {
                    assert(msg@ =~= error_message_of(outcome@));
                }
            },
            FetchOutcome::BodyReadFailure { details } => {
                let mut msg = String::new();
                msg.append("Failed to read response: ");
                msg.append(details.as_str());
                let text = self.metrics_text.clone();
                self.write(text, false, msg);
                proof {
                    assert(msg@ =~= error_message_of(outcome@));
                }
            },
        }
        proof {
            assert(self@ =~= apply_fetch_spec(old(self)@, outcome@));
            lemma_fetch_restores_invariant(old(self)@, outcome@);
        }
    }
}

} // verus!

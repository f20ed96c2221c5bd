//! Request routing: what each path gets. `/metrics` triggers a scrape;
//! `/health` and unknown paths get fixed responses and no upstream call.

use vstd::prelude::*;
use vstd::string::StringExecFns;
use crate::text::str_eq;

verus! {

/// What the server does for one request path.
pub enum RequestPlan {
    /// Fetch from the upstream gateway, then render and serve the cache.
    Scrape,
    /// Serve this fixed response; no upstream call, no cache access.
    Respond { status: u16, body: String },
}

/// Model of a request plan.
#[verifier::ext_equal]
pub enum PlanView {
    Scrape,
    Respond { status: u16, body: Seq<char> },
}

impl View for RequestPlan {
    type V = PlanView;

    open spec fn view(&self) -> PlanView {
        match self {
            RequestPlan::Scrape => PlanView::Scrape,
            RequestPlan::Respond { status, body } => PlanView::Respond {
                status: *status,
                body: body@,
            },
        }
    }
}

/// The plan for each path: `/metrics` scrapes; `/health` answers `200 OK`
/// with body `OK`; anything else answers `404` with body `Try /metrics`.
pub open spec fn plan_spec(path: Seq<char>) -> PlanView {
    if path == "/metrics"@ {
        PlanView::Scrape
    } else if path == "/health"@ {
        PlanView::Respond { status: 200, body: "OK"@ }
    } else {
        PlanView::Respond { status: 404, body: "Try /metrics"@ }
    }
}

/// Decide what one request path gets.
pub fn plan_request(path: &str) -> (p: RequestPlan)
    ensures
        p@ == plan_spec(path@),
{
    if str_eq(path, "/metrics") {
        RequestPlan::Scrape
    } else if str_eq(path, "/health") {
        let p = RequestPlan::Respond { status: 200, body: String::from_str("OK") };
        proof {
            assert(p@ =~= plan_spec(path@));
        }
        p
    } else {
        let p = RequestPlan::Respond { status: 404, body: String::from_str("Try /metrics") };
        proof {
            assert(p@ =~= plan_spec(path@));
        }
        p
    }
}

/// The content type header value served with the rendered metrics.
pub fn metrics_content_type() -> (r: &'static str)
    ensures
        r@ == "text/plain; version=0.0.4; charset=utf-8"@,
{
    "text/plain; version=0.0.4; charset=utf-8"
}

} // verus!

//! Rendering of the response body: the exporter liveness gauge, the
//! gateway-reachability gauge, and then either the forwarded upstream lines
//! or the last error as a comment.

use vstd::prelude::*;
use vstd::string::{StrSliceExecFns, StringExecFns};
use crate::cache::CacheView;
use crate::forward::{append_forwarded_lines, forward_spec};

verus! {

/// The fixed liveness block: the exporter itself is up. Rendering always
/// begins with it, so it is present in every output.
pub open spec fn up_block() -> Seq<char> {
    "# HELP godon_metrics_exporter_up Status of the Godon metrics exporter\n# TYPE godon_metrics_exporter_up gauge\ngodon_metrics_exporter_up{status=\"success\"} 1\n\n"@
}

/// The reachability block: metadata comments, then the gauge with the cached
/// flag rendered as `1` or `0`, then a blank line.
pub open spec fn reachable_block(reachable: bool) -> Seq<char> {
    "# HELP godon_metrics_pushgateway_reachable Whether Push Gateway is reachable\n# TYPE godon_metrics_pushgateway_reachable gauge\ngodon_metrics_pushgateway_reachable "@
        + (if reachable {
        "1\n\n"@
    } else {
        "0\n\n"@
    })
}

/// What follows the two gauge blocks: the forwarded lines when the gateway
/// is reachable and text was cached; otherwise the last error as a comment,
/// if there is one; otherwise nothing.
pub open spec fn tail_block(c: CacheView) -> Seq<char> {
    if c.reachable && c.metrics_text.len() > 0 {
        forward_spec(c.metrics_text)
    } else if c.last_error.len() > 0 {
        "# Last error: "@ + c.last_error + "\n"@
    } else {
        Seq::empty()
    }
}

/// The full response body rendered from one cache snapshot.
pub open spec fn render_spec(c: CacheView) -> Seq<char> {
    up_block() + reachable_block(c.reachable) + tail_block(c)
}

/// Render the response body from a cache snapshot. Pure: the output is a
/// function of the three snapshot fields alone.
pub fn render_snapshot(text: &str, reachable: bool, error: &str) -> (out: String)
    ensures
        out@ == render_spec(
            CacheView { metrics_text: text@, reachable: reachable, last_error: error@ },
        ),
{
    let ghost c = CacheView { metrics_text: text@, reachable: reachable, last_error: error@ };
    let mut out = String::new();
    out.append(
        "# HELP godon_metrics_exporter_up Status of the Godon metrics exporter\n# TYPE godon_metrics_exporter_up gauge\ngodon_metrics_exporter_up{status=\"success\"} 1\n\n",
    );
    out.append(
        "# HELP godon_metrics_pushgateway_reachable Whether Push Gateway is reachable\n# TYPE godon_metrics_pushgateway_reachable gauge\ngodon_metrics_pushgateway_reachable ",
    );
    if reachable {
        out.append("1\n\n");
    } else {
        out.append("0\n\n");
    }
    proof {
        assert(out@ =~= up_block() + reachable_block(reachable));
    }
    if reachable && text.unicode_len() > 0 {
        append_forwarded_lines(&mut out, text);
        proof {
            assert(out@ =~= render_spec(c));
        }
    } else if error.unicode_len() > 0 {
        out.append("# Last error: ");
        out.append(error);
        out.append("\n");
        proof {
            assert(tail_block(c) == "# Last error: "@ + c.last_error + "\n"@);
            assert(out@ =~= render_spec(c));
        }
    } else {
        proof {
            assert(tail_block(c) =~= Seq::<char>::empty());
            assert(out@ =~= render_spec(c));
        }
    }
    out
}

/// Rendering is idempotent: any two outputs rendered from the same cache
/// snapshot, with no write in between, are identical byte for byte.
pub proof fn lemma_render_idempotent(c: CacheView, r1: Seq<char>, r2: Seq<char>)
    requires
        r1 == render_spec(c),
        r2 == render_spec(c),
    ensures
        r1 == r2,
{
}

/// The exporter liveness block, gauge line included, opens every rendered
/// output, whatever the cache holds.
pub proof fn lemma_up_gauge_always_present(c: CacheView)
    ensures
        render_spec(c).len() >= up_block().len(),
        render_spec(c).subrange(0, up_block().len() as int) == up_block(),
{
    assert(render_spec(c).subrange(0, up_block().len() as int) =~= up_block());
}

} // verus!

//! The laws of the bridge, stated over its model and proved once and for all.
//!
//! Each lemma here is a guarantee the relay gives its callers, phrased over
//! the spec transitions of [`crate::bridge`]: what a submission, a routed
//! event, a timeout and a drain step may and may not do to any request.

use vstd::prelude::*;
use crate::bridge::{
    fresh_entry, find_live_from, lemma_find_live_from_props, live_index, queued_status_line,
    spec_next_state, spec_route, spec_submit, spec_timeout, timeout_error_line, BridgeModel,
    EntryModel,
};
use crate::codec::{record_line, spec_translate, InboundEventModel, OutboundRecordModel};
use crate::token::{lemma_distinct_serials_distinct_tokens, token_has_serial};

verus! {

/// Law: a token minted under the bridge's current serial collides with no
/// token already in the table. Together with
/// [`lemma_distinct_serials_distinct_tokens`] this is the distinctness of
/// tokens across any number of submissions: every submission stamps the
/// serial it saw and advances it within the same critical section.
pub proof fn lemma_fresh_token_not_in_table(b: BridgeModel, t: Seq<char>, i: int)
    requires
        b.wf(),
        token_has_serial(t, b.serial),
        0 <= i < b.entries.len(),
    ensures
        b.entries[i].token != t,
{
    lemma_distinct_serials_distinct_tokens(b.entries[i].token, b.entries[i].serial, t, b.serial);
}

/// Law: the submission serial never moves backwards. Routing, timeouts and
/// draining keep it, and a submission advances it by one — so every
/// submission, however the steps interleave, mints its token under a serial
/// no later submission will see again.
pub proof fn lemma_serial_advances(
    b: BridgeModel,
    token: Seq<char>,
    ev: InboundEventModel,
    t: Seq<char>,
)
    ensures
        spec_route(b, token, ev).serial == b.serial,
        spec_timeout(b, token).serial == b.serial,
        spec_next_state(b, token).serial == b.serial,
        b.serial < u64::MAX ==> spec_submit(b, t).serial == b.serial + 1,
{
}

/// Law: two submissions, wherever they stand in time, mint distinct tokens:
/// the later one runs at a strictly larger serial, and distinct serials force
/// distinct tokens.
pub proof fn lemma_two_submissions_distinct(
    b1: BridgeModel,
    t1: Seq<char>,
    b2: BridgeModel,
    t2: Seq<char>,
)
    requires
        token_has_serial(t1, b1.serial),
        token_has_serial(t2, b2.serial),
        b1.serial < b2.serial,
    ensures
        t1 != t2,
{
    lemma_distinct_serials_distinct_tokens(t1, b1.serial, t2, b2.serial);
}

/// Law: routing an event whose token has no live entry leaves the bridge
/// exactly as it was — no record appears anywhere, and no other request is
/// affected.
pub proof fn lemma_unknown_token_is_dropped(b: BridgeModel, token: Seq<char>, ev: InboundEventModel)
    requires
        live_index(b, token) < 0,
    ensures
        spec_route(b, token, ev) == b,
{
}

/// Law: no cross-delivery. Routing an event tagged with one token never
/// changes an entry that carries a different token: one request's events can
/// never appear in another request's stream.
pub proof fn lemma_no_cross_delivery(
    b: BridgeModel,
    token: Seq<char>,
    ev: InboundEventModel,
    i: int,
)
    requires
        0 <= i < b.entries.len(),
        b.entries[i].token != token,
    ensures
        spec_route(b, token, ev).entries[i] == b.entries[i],
{
    let j = live_index(b, token);
    if j >= 0 {
        lemma_find_live_from_props(b.entries, token, 0);
    }
}

/// Law: records only accumulate. Routing appends at most one record at the
/// end of a request's line sequence and never moves the cursor, so every
/// record already enqueued keeps its place and its order.
pub proof fn lemma_route_only_appends(
    b: BridgeModel,
    token: Seq<char>,
    ev: InboundEventModel,
    i: int,
)
    requires
        0 <= i < b.entries.len(),
    ensures
        b.entries[i].lines.is_prefix_of(spec_route(b, token, ev).entries[i].lines),
        spec_route(b, token, ev).entries[i].cursor == b.entries[i].cursor,
        spec_route(b, token, ev).entries[i].token == b.entries[i].token,
{
    let j = live_index(b, token);
    if j >= 0 {
        lemma_find_live_from_props(b.entries, token, 0);
        if i == j {
            assert(b.entries[i].lines.is_prefix_of(b.entries[i].lines.push(
                record_line(spec_translate(ev)),
            )));
        }
    }
    assert(b.entries[i].lines.is_prefix_of(b.entries[i].lines));
}

/// Law: the timeout guard also only appends, to the one entry it closes.
pub proof fn lemma_timeout_only_appends(b: BridgeModel, token: Seq<char>, i: int)
    requires
        0 <= i < b.entries.len(),
    ensures
        b.entries[i].lines.is_prefix_of(spec_timeout(b, token).entries[i].lines),
        spec_timeout(b, token).entries[i].cursor == b.entries[i].cursor,
        spec_timeout(b, token).entries[i].token == b.entries[i].token,
{
    let j = live_index(b, token);
    if j >= 0 {
        lemma_find_live_from_props(b.entries, token, 0);
        if i == j {
            assert(b.entries[i].lines.is_prefix_of(b.entries[i].lines.push(
                timeout_error_line(),
            )));
        }
    }
    assert(b.entries[i].lines.is_prefix_of(b.entries[i].lines));
}

/// Law: a submission touches no existing entry.
pub proof fn lemma_submit_preserves_entries(b: BridgeModel, t: Seq<char>, i: int)
    requires
        0 <= i < b.entries.len(),
    ensures
        spec_submit(b, t).entries[i] == b.entries[i],
{
}

/// After a fresh submission, the table lookup for its token finds exactly the
/// new entry.
pub proof fn lemma_live_index_of_new(b: BridgeModel, t: Seq<char>)
    requires
        b.wf(),
        token_has_serial(t, b.serial),
    ensures
        live_index(spec_submit(b, t), t) == b.entries.len(),
{
    let entries2 = spec_submit(b, t).entries;
    assert forall|k: int| 0 <= k < b.entries.len() implies (#[trigger] entries2[k]).token != t by {
        assert(entries2[k] == b.entries[k]);
        lemma_fresh_token_not_in_table(b, t, k);
    };
    lemma_find_live_reaches_last(entries2, t, 0);
}

/// If no entry before the last matches `token` and the last is live and
/// matches, the search finds the last.
proof fn lemma_find_live_reaches_last(entries: Seq<EntryModel>, token: Seq<char>, i: int)
    requires
        0 <= i < entries.len(),
        forall|k: int| i <= k < entries.len() - 1 ==> (#[trigger] entries[k]).token != token,
        entries.last().live,
        entries.last().token == token,
    ensures
        find_live_from(entries, token, i) == entries.len() - 1,
    decreases entries.len() - i,
{
    if i < entries.len() - 1 {
        lemma_find_live_reaches_last(entries, token, i + 1);
    }
}

/// Law: with no peer event routed for it, a submission's stream is exactly
/// the queued-status record followed by the timeout error record, and the
/// entry is closed — whatever else already stands in the table, and no other
/// entry is touched by either step.
pub proof fn lemma_timeout_only_stream(b: BridgeModel, t: Seq<char>)
    requires
        b.wf(),
        token_has_serial(t, b.serial),
    ensures
        ({
            let b2 = spec_timeout(spec_submit(b, t), t);
            let i = b.entries.len() as int;
            &&& b2.entries.len() == b.entries.len() + 1
            &&& b2.entries[i].lines == seq![queued_status_line(), timeout_error_line()]
            &&& !b2.entries[i].live
            &&& forall|k: int| 0 <= k < i ==> #[trigger] b2.entries[k] == b.entries[k]
        }),
{
    let b1 = spec_submit(b, t);
    let i = b.entries.len() as int;
    lemma_live_index_of_new(b, t);
    let b2 = spec_timeout(b1, t);
    assert(b1.entries[i] == fresh_entry(t, b.serial));
    assert(b2.entries[i].lines =~= seq![queued_status_line(), timeout_error_line()]);
    assert forall|k: int| 0 <= k < i implies #[trigger] b2.entries[k] == b.entries[k] by {
        assert(b1.entries[k] == b.entries[k]);
    };
}

/// Law: a routed `status` event for a fresh submission becomes the second
/// record of that request, directly after the queued-status record, with the
/// entry still live — so it stands strictly after the queued line and, since
/// every later step only appends, strictly before any other record of that
/// request.
pub proof fn lemma_status_follows_queued(b: BridgeModel, t: Seq<char>, s: Seq<char>)
    requires
        b.wf(),
        token_has_serial(t, b.serial),
    ensures
        ({
            let b2 = spec_route(spec_submit(b, t), t, InboundEventModel::Status(s));
            let i = b.entries.len() as int;
            &&& b2.entries[i].lines == seq![
                queued_status_line(),
                record_line(OutboundRecordModel::Status(s)),
            ]
            &&& b2.entries[i].live
            &&& forall|k: int| 0 <= k < i ==> #[trigger] b2.entries[k] == b.entries[k]
        }),
{
    let b1 = spec_submit(b, t);
    let i = b.entries.len() as int;
    lemma_live_index_of_new(b, t);
    let b2 = spec_route(b1, t, InboundEventModel::Status(s));
    assert(b1.entries[i] == fresh_entry(t, b.serial));
    assert(b2.entries[i].lines =~= seq![
        queued_status_line(),
        record_line(OutboundRecordModel::Status(s)),
    ]);
    assert forall|k: int| 0 <= k < i implies #[trigger] b2.entries[k] == b.entries[k] by {
        assert(b1.entries[k] == b.entries[k]);
    };
}

/// Law: a routed final `response` for a fresh submission yields exactly the
/// queued-status record followed by the `done` record and closes the entry:
/// the stream ends as soon as it is drained, without waiting for the timeout.
/// The later timeout is then a no-op on this request.
pub proof fn lemma_response_closes_stream(b: BridgeModel, t: Seq<char>, x: Seq<char>)
    requires
        b.wf(),
        token_has_serial(t, b.serial),
    ensures
        ({
            let b2 = spec_route(spec_submit(b, t), t, InboundEventModel::Response(x));
            let i = b.entries.len() as int;
            &&& b2.entries[i].lines == seq![
                queued_status_line(),
                record_line(OutboundRecordModel::Done(x)),
            ]
            &&& !b2.entries[i].live
            &&& forall|k: int| 0 <= k < i ==> #[trigger] b2.entries[k] == b.entries[k]
        }),
{
    let b1 = spec_submit(b, t);
    let i = b.entries.len() as int;
    lemma_live_index_of_new(b, t);
    let b2 = spec_route(b1, t, InboundEventModel::Response(x));
    assert(b1.entries[i] == fresh_entry(t, b.serial));
    assert(b2.entries[i].lines =~= seq![
        queued_status_line(),
        record_line(OutboundRecordModel::Done(x)),
    ]);
    assert forall|k: int| 0 <= k < i implies #[trigger] b2.entries[k] == b.entries[k] by {
        assert(b1.entries[k] == b.entries[k]);
    };
}

} // verus!

//! The bridge state machine.
//!
//! One [`Bridge`] value holds the whole mutable state of the relay: the peer
//! registry and the request table. The surrounding runtime owns it behind a
//! mutual-exclusion handle and calls one method per step — register a peer,
//! submit a request, route a decoded peer event, fire a timeout, drain one
//! line — so every method below is one critical section, and its contract
//! states exactly what that step does.
//!
//! A request entry stays in the table while it is `live`; a terminal record —
//! the final `done` or the injected timeout `error` — closes it. Closing is
//! deliberate for `done` as well: the logical request is complete, so the
//! caller's stream ends as soon as it is drained instead of waiting out the
//! timeout. A closed entry keeps its undrained records, as a delivery channel
//! outlives its table slot, and [`Bridge::next_line`] hands them out in
//! enqueue order until the stream reports finished.

use vstd::prelude::*;
use vstd::string::StringExecFns;
use crate::codec::{
    InboundEvent, InboundEventModel, OutboundRecord, OutboundRecordModel, record_line,
    record_to_line, spec_translate, translate, work_order_line, build_work_order,
};
use crate::token::{mint_token, token_has_serial};

verus! {

/// The mathematical value of one request entry.
pub ghost struct EntryModel {
    /// The opaque token that correlates the entry with peer events.
    pub token: Seq<char>,
    /// The submission serial stamped into the token.
    pub serial: u64,
    /// Every record line ever enqueued for the caller, in enqueue order.
    pub lines: Seq<Seq<char>>,
    /// How many of those lines the caller has already drained.
    pub cursor: int,
    /// Whether the entry still sits in the request table.
    pub live: bool,
}

/// The mathematical value of the whole bridge.
pub ghost struct BridgeModel {
    /// The registered peers, in registration order, without deduplication.
    pub peers: Seq<u64>,
    /// Every request entry ever created, in submission order.
    pub entries: Seq<EntryModel>,
    /// The serial the next submission will carry.
    pub serial: u64,
}

/// A well-formed entry: the cursor never passes the end, and the token carries
/// the entry's serial.
pub open spec fn entry_wf(e: EntryModel) -> bool {
    &&& 0 <= e.cursor <= e.lines.len()
    &&& token_has_serial(e.token, e.serial)
}

impl BridgeModel {
    /// The bridge invariant: every entry is well formed, carries a serial
    /// below the next one to be minted, and no two entries share a serial —
    /// hence no two share a token.
    pub open spec fn wf(self) -> bool {
        &&& forall|i: int|
            0 <= i < self.entries.len() ==> entry_wf(#[trigger] self.entries[i])
        &&& forall|i: int|
            0 <= i < self.entries.len() ==> (#[trigger] self.entries[i]).serial < self.serial
        &&& forall|i: int, j: int|
            #![trigger self.entries[i].serial, self.entries[j].serial]
            0 <= i < j < self.entries.len() ==> self.entries[i].serial != self.entries[j].serial
    }
}

/// The first index at or after `i` whose entry is live and carries `token`;
/// `-1` if there is none.
pub open spec fn find_live_from(entries: Seq<EntryModel>, token: Seq<char>, i: int) -> int
    decreases entries.len() - i,
{
    if i < 0 || i >= entries.len() {
        -1
    } else if entries[i].live && entries[i].token == token {
        i
    } else {
        find_live_from(entries, token, i + 1)
    }
}

/// The request table lookup: the index of the live entry for `token`, `-1` if
/// the token has no live entry.
pub open spec fn live_index(b: BridgeModel, token: Seq<char>) -> int {
    find_live_from(b.entries, token, 0)
}

/// The first index at or after `i` whose entry carries `token`, live or
/// closed; `-1` if there is none.
pub open spec fn find_entry_from(entries: Seq<EntryModel>, token: Seq<char>, i: int) -> int
    decreases entries.len() - i,
{
    if i < 0 || i >= entries.len() {
        -1
    } else if entries[i].token == token {
        i
    } else {
        find_entry_from(entries, token, i + 1)
    }
}

/// The index of the entry for `token`, whether still live or already closed;
/// `-1` if the token was never submitted (or the entry was discarded).
pub open spec fn entry_index(b: BridgeModel, token: Seq<char>) -> int {
    find_entry_from(b.entries, token, 0)
}

/// What `find_live_from` returns: a live matching index at or after `i`, with
/// no live match before it; or `-1` when no live match remains.
pub proof fn lemma_find_live_from_props(entries: Seq<EntryModel>, token: Seq<char>, i: int)
    requires
        0 <= i,
    ensures
        ({
            let r = find_live_from(entries, token, i);
            &&& r == -1 || (i <= r < entries.len() && entries[r].live && entries[r].token
                == token)
            &&& r == -1 ==> forall|k: int|
                i <= k < entries.len() ==> !((#[trigger] entries[k]).live && entries[k].token
                    == token)
            &&& r != -1 ==> forall|k: int|
                i <= k < r ==> !((#[trigger] entries[k]).live && entries[k].token == token)
        }),
    decreases entries.len() - i,
{
    if 0 <= i < entries.len() && !(entries[i].live && entries[i].token == token) {
        lemma_find_live_from_props(entries, token, i + 1);
    }
}

/// What `find_entry_from` returns, in the same shape.
pub proof fn lemma_find_entry_from_props(entries: Seq<EntryModel>, token: Seq<char>, i: int)
    requires
        0 <= i,
    ensures
        ({
            let r = find_entry_from(entries, token, i);
            &&& r == -1 || (i <= r < entries.len() && entries[r].token == token)
            &&& r == -1 ==> forall|k: int|
                i <= k < entries.len() ==> (#[trigger] entries[k]).token != token
            &&& r != -1 ==> forall|k: int| i <= k < r ==> (#[trigger] entries[k]).token != token
        }),
    decreases entries.len() - i,
{
    if 0 <= i < entries.len() && entries[i].token != token {
        lemma_find_entry_from_props(entries, token, i + 1);
    }
}

/// The fixed delay, in seconds, after which the timeout guard of a submission
/// fires. Not configurable per request.
pub const TIMEOUT_SECS: u64 = 120;

/// The first record of every request: `status("Request queued")`.
pub open spec fn queued_status_line() -> Seq<char> {
    record_line(OutboundRecordModel::Status("Request queued"@))
}

/// The record the timeout guard injects: `error("Timeout waiting for AI response")`.
pub open spec fn timeout_error_line() -> Seq<char> {
    record_line(OutboundRecordModel::Error("Timeout waiting for AI response"@))
}

/// A just-created entry: live, holding only the queued-status record, nothing
/// drained yet.
pub open spec fn fresh_entry(token: Seq<char>, serial: u64) -> EntryModel {
    EntryModel { token, serial, lines: seq![queued_status_line()], cursor: 0, live: true }
}

/// Registering a peer appends it to the registry and touches nothing else.
pub open spec fn spec_register(b: BridgeModel, peer: u64) -> BridgeModel {
    BridgeModel { peers: b.peers.push(peer), ..b }
}

/// A submission appends a fresh entry under the current serial and advances
/// the serial.
pub open spec fn spec_submit(b: BridgeModel, token: Seq<char>) -> BridgeModel {
    BridgeModel {
        entries: b.entries.push(fresh_entry(token, b.serial)),
        serial: (b.serial + 1) as u64,
        ..b
    }
}

/// How routing one event changes the entry it reaches: the translated record
/// is enqueued, and a final response closes the entry.
pub open spec fn route_updated_entry(e: EntryModel, ev: InboundEventModel) -> EntryModel {
    EntryModel {
        lines: e.lines.push(record_line(spec_translate(ev))),
        live: if ev is Response {
            false
        } else {
            e.live
        },
        ..e
    }
}

/// Routing an event: if the token has a live entry, that entry alone is
/// updated; otherwise the event is dropped and the bridge is untouched.
pub open spec fn spec_route(b: BridgeModel, token: Seq<char>, ev: InboundEventModel) -> BridgeModel {
    let i = live_index(b, token);
    if i < 0 {
        b
    } else {
        BridgeModel { entries: b.entries.update(i, route_updated_entry(b.entries[i], ev)), ..b }
    }
}

/// How the timeout guard changes the entry it reaches: the timeout error is
/// enqueued and the entry is closed.
pub open spec fn timeout_updated_entry(e: EntryModel) -> EntryModel {
    EntryModel { lines: e.lines.push(timeout_error_line()), live: false, ..e }
}

/// The timeout guard firing: if the token still has a live entry it is closed
/// with the timeout error; otherwise a no-op.
pub open spec fn spec_timeout(b: BridgeModel, token: Seq<char>) -> BridgeModel {
    let i = live_index(b, token);
    if i < 0 {
        b
    } else {
        BridgeModel { entries: b.entries.update(i, timeout_updated_entry(b.entries[i])), ..b }
    }
}

/// What draining one step returns for `token`.
pub open spec fn spec_next_step(b: BridgeModel, token: Seq<char>) -> StreamStepModel {
    let i = entry_index(b, token);
    if i < 0 {
        StreamStepModel::Finished
    } else {
        let e = b.entries[i];
        if e.cursor < e.lines.len() {
            StreamStepModel::Line(e.lines[e.cursor])
        } else if !e.live {
            StreamStepModel::Finished
        } else {
            StreamStepModel::Pending
        }
    }
}

/// How draining one step changes the bridge: the cursor advances past a
/// delivered line; nothing else moves.
pub open spec fn spec_next_state(b: BridgeModel, token: Seq<char>) -> BridgeModel {
    let i = entry_index(b, token);
    if i < 0 {
        b
    } else {
        let e = b.entries[i];
        if e.cursor < e.lines.len() {
            BridgeModel {
                entries: b.entries.update(i, EntryModel { cursor: e.cursor + 1, ..e }),
                ..b
            }
        } else {
            b
        }
    }
}

/// One step of draining a request's stream.
#[derive(Debug, PartialEq, Eq, Clone)]
pub enum StreamStep {
    /// The next record line, in enqueue order.
    Line(String),
    /// Nothing enqueued yet, but the request is still live: poll again.
    Pending,
    /// Everything is delivered and the entry is closed (or unknown): the
    /// stream ends.
    Finished,
}

/// The mathematical value of a [`StreamStep`].
pub ghost enum StreamStepModel {
    Line(Seq<char>),
    Pending,
    Finished,
}

impl View for StreamStep {
    type V = StreamStepModel;

    open spec fn view(&self) -> StreamStepModel {
        match self {
            StreamStep::Line(s) => StreamStepModel::Line(s@),
            StreamStep::Pending => StreamStepModel::Pending,
            StreamStep::Finished => StreamStepModel::Finished,
        }
    }
}

/// Why a submission was refused.
#[derive(Clone, Copy, PartialEq, Eq, Structural, Debug)]
pub enum SubmitError {
    /// `model` or `prompt` was empty.
    MissingField,
}

impl SubmitError {
    /// The plain-text reason sent with the client error.
    pub fn message(&self) -> (m: &'static str)
        ensures
            m@ == "model and prompt required"@,
    {
        "model and prompt required"
    }
}

/// What a successful submission hands back to the runtime.
#[derive(Debug, Clone)]
pub struct Submission {
    /// The freshly minted request token.
    pub token: String,
    /// The work-order frame to broadcast to every registered peer.
    pub frame: String,
}

struct Entry {
    token: String,
    serial: u64,
    lines: Vec<String>,
    cursor: usize,
    live: bool,
}

impl View for Entry {
    type V = EntryModel;

    closed spec fn view(&self) -> EntryModel {
        EntryModel {
            token: self.token@,
            serial: self.serial,
            lines: self.lines@.map_values(|s: String| s@),
            cursor: self.cursor as int,
            live: self.live,
        }
    }
}

spec fn entries_view(entries: Seq<Entry>) -> Seq<EntryModel> {
    entries.map_values(|e: Entry| e@)
}

/// The whole mutable state of the relay: peer registry and request table.
pub struct Bridge {
    peers: Vec<u64>,
    entries: Vec<Entry>,
    serial: u64,
}

impl View for Bridge {
    type V = BridgeModel;

    closed spec fn view(&self) -> BridgeModel {
        BridgeModel {
            peers: self.peers@,
            entries: entries_view(self.entries@),
            serial: self.serial,
        }
    }
}

/// The index of the first live entry for `token`, matching `find_live_from`.
fn find_live_slot(entries: &Vec<Entry>, token: &String) -> (r: Option<usize>)
    ensures
        match r {
            Some(i) => i < entries@.len() && find_live_from(entries_view(entries@), token@, 0)
                == i as int,
            None => find_live_from(entries_view(entries@), token@, 0) == -1,
        },
{
    let n = entries.len();
    let mut i: usize = 0;
    while i < n
        invariant
            n == entries@.len(),
            i <= n,
            find_live_from(entries_view(entries@), token@, 0) == find_live_from(
                entries_view(entries@),
                token@,
                i as int,
            ),
        decreases n - i,
    {
        let e = &entries[i];
        proof {
            assert(entries_view(entries@)[i as int] == e@);
        }
        if e.live && e.token == *token {
            return Some(i);
        }
        i = i + 1;
    }
    None
}

/// The index of the entry for `token`, live or closed, matching
/// `find_entry_from`.
fn find_any_slot(entries: &Vec<Entry>, token: &String) -> (r: Option<usize>)
    ensures
        match r {
            Some(i) => i < entries@.len() && find_entry_from(entries_view(entries@), token@, 0)
                == i as int,
            None => find_entry_from(entries_view(entries@), token@, 0) == -1,
        },
{
    let n = entries.len();
    let mut i: usize = 0;
    while i < n
        invariant
            n == entries@.len(),
            i <= n,
            find_entry_from(entries_view(entries@), token@, 0) == find_entry_from(
                entries_view(entries@),
                token@,
                i as int,
            ),
        decreases n - i,
    {
        let e = &entries[i];
        proof {
            assert(entries_view(entries@)[i as int] == e@);
        }
        if e.token == *token {
            return Some(i);
        }
        i = i + 1;
    }
    None
}

fn build_queued_status_line() -> (line: String)
    ensures
        line@ == queued_status_line(),
{
    let r = OutboundRecord::Status(String::from_str("Request queued"));
    record_to_line(&r)
}

fn build_timeout_error_line() -> (line: String)
    ensures
        line@ == timeout_error_line(),
{
    let r = OutboundRecord::Error(String::from_str("Timeout waiting for AI response"));
    record_to_line(&r)
}

impl Bridge {
    /// A bridge with no peers and no requests, as the process starts with.
    pub fn new() -> (b: Bridge)
        ensures
            b@.peers == Seq::<u64>::empty(),
            b@.entries == Seq::<EntryModel>::empty(),
            b@.serial == 0,
            b@.wf(),
    {
        let b = Bridge { peers: Vec::new(), entries: Vec::new(), serial: 0 };
        proof {
            assert(b@.entries =~= Seq::<EntryModel>::empty());
        }
        b
    }

    /// How many peers are registered.
    pub fn peer_count(&self) -> (n: usize)
        ensures
            n == self@.peers.len(),
    {
        self.peers.len()
    }

    /// How many request entries the table holds, closed ones included.
    pub fn entry_count(&self) -> (n: usize)
        ensures
            n == self@.entries.len(),
    {
        self.entries.len()
    }

    /// The serial the next submission will be stamped with.
    pub fn next_serial(&self) -> (n: u64)
        ensures
            n == self@.serial,
    {
        self.serial
    }

    /// Registers a connected peer: appended to the registry, no capacity
    /// bound, no uniqueness check, nothing else touched.
    pub fn register_peer(&mut self, peer: u64)
        requires
            old(self)@.wf(),
        ensures
            final(self)@ == spec_register(old(self)@, peer),
            final(self)@.wf(),
    {
        self.peers.push(peer);
        proof {
            assert(self@ == spec_register(old(self)@, peer));
            assert(self@.entries == old(self)@.entries);
        }
    }

    /// Handles one HTTP submission. An empty `model` or `prompt` is refused
    /// with no side effect at all. Otherwise a token is minted under the
    /// current serial, the entry is created holding the queued-status record,
    /// and the work-order frame to broadcast is returned; the caller owes the
    /// peers the broadcast and the timeout guard its schedule.
    pub fn submit(&mut self, model: &str, prompt: &str, new_chat: bool) -> (r: Result<
        Submission,
        SubmitError,
    >)
        requires
            old(self)@.wf(),
            old(self)@.serial < u64::MAX,
        ensures
            final(self)@.wf(),
            r is Err <==> (model@.len() == 0 || prompt@.len() == 0),
            r is Err ==> final(self)@ == old(self)@ && r == Err::<Submission, SubmitError>(
                SubmitError::MissingField,
            ),
            r matches Ok(sub) ==> token_has_serial(sub.token@, old(self)@.serial),
            r matches Ok(sub) ==> final(self)@ == spec_submit(old(self)@, sub.token@),
            r matches Ok(sub) ==> sub.frame@ == work_order_line(
                sub.token@,
                model@,
                prompt@,
                new_chat,
            ),
    {
        if model.is_empty() || prompt.is_empty() {
            return Err(SubmitError::MissingField);
        }
        let serial = self.serial;
        let token = mint_token(serial);
        let frame = build_work_order(token.as_str(), model, prompt, new_chat);
        let mut lines: Vec<String> = Vec::new();
        lines.push(build_queued_status_line());
        let entry = Entry { token: token.clone(), serial, lines, cursor: 0, live: true };
        proof {
            assert(entry@.lines =~= seq![queued_status_line()]);
            assert(entry@ == fresh_entry(token@, serial));
        }
        self.entries.push(entry);
        self.serial = serial + 1;
        proof {
            assert(self@.entries =~= old(self)@.entries.push(fresh_entry(token@, serial)));
            assert(self@ == spec_submit(old(self)@, token@));
            lemma_submit_wf(old(self)@, token@);
        }
        Ok(Submission { token, frame })
    }

    /// Routes one decoded peer event. If `token` has a live entry, exactly
    /// that entry receives the translated record — a final response also
    /// closes it — and `delivered` is true. An unknown or already-closed
    /// token drops the event with no trace, which is the expected fate of
    /// events arriving after a timeout.
    pub fn route(&mut self, token: &str, event: InboundEvent) -> (delivered: bool)
        requires
            old(self)@.wf(),
        ensures
            final(self)@.wf(),
            delivered == (live_index(old(self)@, token@) >= 0),
            final(self)@ == spec_route(old(self)@, token@, event@),
    {
        let ghost evm = event@;
        let token_owned = token.to_owned();
        match find_live_slot(&self.entries, &token_owned) {
            None => false,
            Some(i) => {
                let closes = match &event {
                    InboundEvent::Response(_) => true,
                    _ => false,
                };
                let rec = translate(event);
                let line = record_to_line(&rec);
                let ghost oldm = old(self)@;
                let ghost old_entry = oldm.entries[i as int];
                let e = &mut self.entries[i];
                e.lines.push(line);
                if closes {
                    e.live = false;
                }
                proof {
                    assert(self.entries@[i as int]@.lines =~= old_entry.lines.push(
                        record_line(spec_translate(evm)),
                    ));
                    assert(self.entries@[i as int]@ == route_updated_entry(old_entry, evm));
                    assert(self@.entries =~= oldm.entries.update(
                        i as int,
                        route_updated_entry(old_entry, evm),
                    ));
                    assert(self@ == spec_route(oldm, token@, evm));
                    lemma_route_wf(oldm, token@, evm);
                }
                true
            },
        }
    }

    /// The timeout guard firing for `token`: if the entry is still live it is
    /// closed with the timeout error record and `fired` is true; if the
    /// request already ended this is a harmless no-op.
    pub fn timeout_fire(&mut self, token: &str) -> (fired: bool)
        requires
            old(self)@.wf(),
        ensures
            final(self)@.wf(),
            fired == (live_index(old(self)@, token@) >= 0),
            final(self)@ == spec_timeout(old(self)@, token@),
    {
        let token_owned = token.to_owned();
        match find_live_slot(&self.entries, &token_owned) {
            None => false,
            Some(i) => {
                let line = build_timeout_error_line();
                let ghost oldm = old(self)@;
                let ghost old_entry = oldm.entries[i as int];
                let e = &mut self.entries[i];
                e.lines.push(line);
                e.live = false;
                proof {
                    assert(self.entries@[i as int]@.lines =~= old_entry.lines.push(
                        timeout_error_line(),
                    ));
                    assert(self.entries@[i as int]@ == timeout_updated_entry(old_entry));
                    assert(self@.entries =~= oldm.entries.update(
                        i as int,
                        timeout_updated_entry(old_entry),
                    ));
                    assert(self@ == spec_timeout(oldm, token@));
                    lemma_timeout_wf(oldm, token@);
                }
                true
            },
        }
    }

    /// Drains one step of the stream for `token`: the next undelivered line
    /// if there is one, `Pending` while the live entry has nothing new, and
    /// `Finished` once a closed entry is fully drained — or the token is
    /// unknown, as after a caller disconnect.
    pub fn next_line(&mut self, token: &str) -> (step: StreamStep)
        requires
            old(self)@.wf(),
        ensures
            final(self)@.wf(),
            step@ == spec_next_step(old(self)@, token@),
            final(self)@ == spec_next_state(old(self)@, token@),
    {
        let token_owned = token.to_owned();
        match find_any_slot(&self.entries, &token_owned) {
            None => StreamStep::Finished,
            Some(i) => {
                let ghost oldm = old(self)@;
                let ghost old_entry = oldm.entries[i as int];
                proof {
                    assert(self.entries@[i as int]@ == old_entry);
                }
                if self.entries[i].cursor < self.entries[i].lines.len() {
                    let e = &mut self.entries[i];
                    let line = e.lines[e.cursor].clone();
                    e.cursor = e.cursor + 1;
                    proof {
                        assert(self.entries@[i as int]@ == EntryModel {
                            cursor: old_entry.cursor + 1,
                            ..old_entry
                        });
                        assert(self@.entries =~= oldm.entries.update(
                            i as int,
                            EntryModel { cursor: old_entry.cursor + 1, ..old_entry },
                        ));
                        assert(self@ == spec_next_state(oldm, token@));
                        lemma_next_wf(oldm, token@);
                    }
                    StreamStep::Line(line)
                } else if self.entries[i].live {
                    StreamStep::Pending
                } else {
                    StreamStep::Finished
                }
            },
        }
    }
}

/// A submission preserves the bridge invariant: the new entry is well formed
/// and its serial is fresh.
pub proof fn lemma_submit_wf(b: BridgeModel, t: Seq<char>)
    requires
        b.wf(),
        b.serial < u64::MAX,
        token_has_serial(t, b.serial),
    ensures
        spec_submit(b, t).wf(),
{
    let b2 = spec_submit(b, t);
    let n = b.entries.len() as int;
    assert(entry_wf(fresh_entry(t, b.serial)));
    assert forall|i: int| 0 <= i < b2.entries.len() implies entry_wf(#[trigger] b2.entries[i]) by {
        if i < n {
            assert(b2.entries[i] == b.entries[i]);
        }
    };
    assert forall|i: int|
        0 <= i < b2.entries.len() implies (#[trigger] b2.entries[i]).serial < b2.serial by {
        if i < n {
            assert(b2.entries[i] == b.entries[i]);
        }
    };
    assert forall|i: int, j: int|
        #![trigger b2.entries[i].serial, b2.entries[j].serial]
        0 <= i < j < b2.entries.len() implies b2.entries[i].serial != b2.entries[j].serial by {
        if j < n {
            assert(b2.entries[i] == b.entries[i]);
            assert(b2.entries[j] == b.entries[j]);
        } else {
            assert(b2.entries[i] == b.entries[i]);
            assert(b2.entries[j].serial == b.serial);
        }
    };
}

/// Routing preserves the bridge invariant: it only appends a record and can
/// only clear the live flag.
pub proof fn lemma_route_wf(b: BridgeModel, token: Seq<char>, ev: InboundEventModel)
    requires
        b.wf(),
    ensures
        spec_route(b, token, ev).wf(),
{
    let i = live_index(b, token);
    if i >= 0 {
        lemma_find_live_from_props(b.entries, token, 0);
        let b2 = spec_route(b, token, ev);
        assert forall|k: int|
            0 <= k < b2.entries.len() implies entry_wf(#[trigger] b2.entries[k]) by {
            if k != i {
                assert(b2.entries[k] == b.entries[k]);
            }
        };
        assert forall|k: int|
            0 <= k < b2.entries.len() implies (#[trigger] b2.entries[k]).serial < b2.serial by {
            if k != i {
                assert(b2.entries[k] == b.entries[k]);
            }
        };
        assert forall|k: int, l: int|
            #![trigger b2.entries[k].serial, b2.entries[l].serial]
            0 <= k < l < b2.entries.len() implies b2.entries[k].serial != b2.entries[l].serial by {
            assert(b2.entries[k].serial == b.entries[k].serial);
            assert(b2.entries[l].serial == b.entries[l].serial);
        };
    }
}

/// The timeout guard preserves the bridge invariant.
pub proof fn lemma_timeout_wf(b: BridgeModel, token: Seq<char>)
    requires
        b.wf(),
    ensures
        spec_timeout(b, token).wf(),
{
    let i = live_index(b, token);
    if i >= 0 {
        lemma_find_live_from_props(b.entries, token, 0);
        let b2 = spec_timeout(b, token);
        assert forall|k: int|
            0 <= k < b2.entries.len() implies entry_wf(#[trigger] b2.entries[k]) by {
            if k != i {
                assert(b2.entries[k] == b.entries[k]);
            }
        };
        assert forall|k: int|
            0 <= k < b2.entries.len() implies (#[trigger] b2.entries[k]).serial < b2.serial by {
            if k != i {
                assert(b2.entries[k] == b.entries[k]);
            }
        };
        assert forall|k: int, l: int|
            #![trigger b2.entries[k].serial, b2.entries[l].serial]
            0 <= k < l < b2.entries.len() implies b2.entries[k].serial != b2.entries[l].serial by {
            assert(b2.entries[k].serial == b.entries[k].serial);
            assert(b2.entries[l].serial == b.entries[l].serial);
        };
    }
}

/// Draining preserves the bridge invariant: the cursor moves one step at most
/// and stays within the lines.
pub proof fn lemma_next_wf(b: BridgeModel, token: Seq<char>)
    requires
        b.wf(),
    ensures
        spec_next_state(b, token).wf(),
{
    let i = entry_index(b, token);
    if i >= 0 {
        lemma_find_entry_from_props(b.entries, token, 0);
        let b2 = spec_next_state(b, token);
        if b.entries[i].cursor < b.entries[i].lines.len() {
            assert forall|k: int|
                0 <= k < b2.entries.len() implies entry_wf(#[trigger] b2.entries[k]) by {
                if k != i {
                    assert(b2.entries[k] == b.entries[k]);
                }
            };
            assert forall|k: int|
                0 <= k < b2.entries.len() implies (#[trigger] b2.entries[k]).serial
                < b2.serial by {
                if k != i {
                    assert(b2.entries[k] == b.entries[k]);
                }
            };
            assert forall|k: int, l: int|
                #![trigger b2.entries[k].serial, b2.entries[l].serial]
                0 <= k < l < b2.entries.len() implies b2.entries[k].serial
                != b2.entries[l].serial by {
                assert(b2.entries[k].serial == b.entries[k].serial);
                assert(b2.entries[l].serial == b.entries[l].serial);
            };
        }
    }
}

} // verus!

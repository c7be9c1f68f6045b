//! Requests forwarded to Live's integrations while they wait for an answer:
//! the table of pending requests and the steps that start, answer, fail or
//! time out a forward.  Each step says which client gets which reply; the
//! program around the library sends frames, sleeps and hands back events.

use vstd::prelude::*;
use crate::daemon::{failed_with, peer_disconnected, peer_unavailable, request_timeout, role_name};
use crate::protocol::{PeerRole, RequestKind, WireMessage};
use crate::tables::{first_index, lemma_first_index, lemma_first_index_at, lemma_first_index_push_other, lemma_first_index_update_other, lemma_upsert_first, upsert_first};
use crate::text::{decimal, str_equal};

verus! {

/// How long a forwarded request may wait for its integration's answer.
pub const REQUEST_TIMEOUT_SECS: u64 = 120;

/// What the daemon keeps of a forwarded request, as far as its answer
/// matters: a load of an item (whose use is counted when it succeeds), a
/// Browser scan (whose streamed batches are stored), or anything else.
#[derive(Debug, PartialEq)]
pub enum Forwarded {
    LoadItem { item_id: String },
    ScanCatalog,
    Other,
}

/// What is kept of `request`.
pub open spec fn forwarded_of(request: RequestKind) -> Forwarded {
    match request {
        RequestKind::LoadItem { item_id, .. } => Forwarded::LoadItem { item_id },
        RequestKind::ScanCatalog { .. } => Forwarded::ScanCatalog,
        _ => Forwarded::Other,
    }
}

impl Forwarded {
    /// What is kept of `request`.
    pub fn of(request: &RequestKind) -> (kept: Forwarded)
        ensures
            kept == forwarded_of(*request),
    {
        match request {
            RequestKind::LoadItem { item_id, .. } => Forwarded::LoadItem { item_id: item_id.clone() },
            RequestKind::ScanCatalog { .. } => Forwarded::ScanCatalog,
            _ => Forwarded::Other,
        }
    }
}

/// A request waiting for its integration's answer: the client that sent
/// it (by the handle the program gave the connection), the peer it went
/// to, and what is kept of it.
#[derive(Debug, PartialEq)]
pub struct PendingRequest {
    pub client: u64,
    pub role: PeerRole,
    pub forwarded: Forwarded,
}

struct PendingRow {
    request_id: String,
    entry: PendingRequest,
}

/// Whether a row is that of request `id`.
spec fn row_has_id(id: Seq<char>) -> spec_fn(PendingRow) -> bool {
    |row: PendingRow| row.request_id@ == id
}

/// The pending requests by id: the first row of each id.
spec fn pending_map(rows: Seq<PendingRow>) -> Map<Seq<char>, PendingRequest> {
    Map::new(
        |id: Seq<char>| first_index(rows, row_has_id(id)) is Some,
        |id: Seq<char>| rows[first_index(rows, row_has_id(id))->0].entry,
    )
}

/// Whether no two rows have the same id.
spec fn distinct_ids(rows: Seq<PendingRow>) -> bool {
    forall|i: int, j: int| 0 <= i < j < rows.len() ==> rows[i].request_id@ != rows[j].request_id@
}

/// The requests forwarded to an integration that have not been answered,
/// by request id.
pub struct PendingTable {
    rows: Vec<PendingRow>,
}

impl PendingTable {
    #[verifier::type_invariant]
    spec fn one_row_per_id(self) -> bool {
        distinct_ids(self.rows@)
    }
}

impl View for PendingTable {
    type V = Map<Seq<char>, PendingRequest>;

    closed spec fn view(&self) -> Map<Seq<char>, PendingRequest> {
        pending_map(self.rows@)
    }
}

/// Putting a row in its id's place (or at the end) makes it the pending
/// request of that id and leaves the others.
proof fn lemma_upsert_row(rows: Seq<PendingRow>, row: PendingRow)
    ensures
        pending_map(upsert_first(rows, row_has_id(row.request_id@), row)) == pending_map(rows).insert(
            row.request_id@,
            row.entry,
        ),
        distinct_ids(rows) ==> distinct_ids(upsert_first(rows, row_has_id(row.request_id@), row)),
{
    let id = row.request_id@;
    let p = row_has_id(id);
    let after = upsert_first(rows, p, row);
    lemma_upsert_first(rows, p, row);
    lemma_first_index(rows, p);
    assert forall|k: Seq<char>| k != id implies first_index(after, row_has_id(k)) == first_index(
        rows,
        row_has_id(k),
    ) && (first_index(rows, row_has_id(k)) matches Some(j) ==> after[j] == rows[j]) by {
        lemma_first_index(rows, row_has_id(k));
        match first_index(rows, p) {
            Some(i) => {
                lemma_first_index_update_other(rows, i, row, row_has_id(k));
            },
            None => {
                lemma_first_index_push_other(rows, row, row_has_id(k));
            },
        }
    }
    assert(pending_map(after) =~= pending_map(rows).insert(id, row.entry));
    if distinct_ids(rows) {
        match first_index(rows, p) {
            Some(i) => {
                assert forall|a: int, b: int| 0 <= a < b < after.len() implies after[a].request_id@
                    != after[b].request_id@ by {
                    if a == i {
                        assert(rows[a].request_id@ == id);
                    }
                    if b == i {
                        assert(rows[b].request_id@ == id);
                    }
                }
            },
            None => {
                assert forall|a: int, b: int| 0 <= a < b < after.len() implies after[a].request_id@
                    != after[b].request_id@ by {
                    if b == rows.len() {
                        assert(!p(rows[a]));
                    }
                }
            },
        }
    }
}

/// Removing the row of `id` from rows of distinct ids removes `id` from the
/// pending requests and leaves the others.
proof fn lemma_remove_row(rows: Seq<PendingRow>, i: int)
    requires
        0 <= i < rows.len(),
        distinct_ids(rows),
    ensures
        pending_map(rows.remove(i)) == pending_map(rows).remove(rows[i].request_id@),
        distinct_ids(rows.remove(i)),
{
    let id = rows[i].request_id@;
    let after = rows.remove(i);
    assert forall|m: int| 0 <= m < after.len() implies #[trigger] after[m] == (if m < i {
        rows[m]
    } else {
        rows[m + 1]
    }) by {}
    assert forall|k: Seq<char>|
        first_index(after, row_has_id(k)) == (if k == id {
            None::<int>
        } else {
            match first_index(rows, row_has_id(k)) {
                Some(j) => Some(if j < i { j } else { j - 1 }),
                None => None,
            }
        }) by {
        let q = row_has_id(k);
        lemma_first_index(rows, q);
        if k == id {
            assert forall|m: int| 0 <= m < after.len() implies !q(#[trigger] after[m]) by {
                if m < i {
                    assert(rows[m].request_id@ != rows[i].request_id@);
                } else {
                    assert(rows[i].request_id@ != rows[m + 1].request_id@);
                }
            }
            lemma_first_index_at(after, q, after.len() as int);
        } else {
            match first_index(rows, q) {
                Some(j) => {
                    let t = if j < i { j } else { j - 1 };
                    assert forall|m: int| 0 <= m < t implies !q(#[trigger] after[m]) by {
                        if m >= i {
                            assert(!q(rows[m + 1]));
                        } else {
                            assert(!q(rows[m]));
                        }
                    }
                    lemma_first_index_at(after, q, t);
                },
                None => {
                    assert forall|m: int| 0 <= m < after.len() implies !q(#[trigger] after[m]) by {
                        if m >= i {
                            assert(!q(rows[m + 1]));
                        } else {
                            assert(!q(rows[m]));
                        }
                    }
                    lemma_first_index_at(after, q, after.len() as int);
                },
            }
        }
    }
    assert forall|k: Seq<char>| k != id && (first_index(rows, row_has_id(k)) is Some) implies after[first_index(
        after,
        row_has_id(k),
    )->0] == rows[first_index(rows, row_has_id(k))->0] by {
        lemma_first_index(rows, row_has_id(k));
    }
    assert(pending_map(after) =~= pending_map(rows).remove(id));
    assert forall|a: int, b: int| 0 <= a < b < after.len() implies after[a].request_id@ != after[b].request_id@ by {
        if a >= i {
            assert(rows[a + 1].request_id@ != rows[b + 1].request_id@);
        } else if b >= i {
            assert(rows[a].request_id@ != rows[b + 1].request_id@);
        } else {
            assert(rows[a].request_id@ != rows[b].request_id@);
        }
    }
}

/// What to do with a client's request for an integration peer: answer the
/// client at once, or send the request to the peer.
#[derive(Debug, PartialEq)]
pub enum ForwardAction {
    Reply(WireMessage),
    Send(PeerRole, WireMessage),
}

/// The pending requests after taking out that of `id`, and what was taken
/// out (nothing when `id` is not pending).
pub open spec fn taken(
    table: Map<Seq<char>, PendingRequest>,
    id: Seq<char>,
) -> (Map<Seq<char>, PendingRequest>, Option<PendingRequest>) {
    if table.contains_key(id) {
        (table.remove(id), Some(table[id]))
    } else {
        (table, None)
    }
}

/// The message of the error for a request that timed out.
pub open spec fn timeout_message() -> Seq<char> {
    "Ableton integration did not respond within "@ + decimal(REQUEST_TIMEOUT_SECS as nat) + " seconds"@
}

impl PendingTable {
    /// No request pending.
    pub fn new() -> (table: PendingTable)
        ensures
            table@ == Map::<Seq<char>, PendingRequest>::empty(),
    {
        let table = PendingTable { rows: Vec::new() };
        proof { assert(table@ =~= Map::<Seq<char>, PendingRequest>::empty()); }
        table
    }

    fn position_of(&self, request_id: &str) -> (found: Option<usize>)
        ensures
            match found {
                Some(i) => first_index(self.rows@, row_has_id(request_id@)) == Some(i as int),
                None => first_index(self.rows@, row_has_id(request_id@)) is None,
            },
            found matches Some(i) ==> i < self.rows@.len(),
    {
        for i in 0..self.rows.len()
            invariant
                forall|j: int| 0 <= j < i ==> !row_has_id(request_id@)(#[trigger] self.rows@[j]),
        {
            if str_equal(self.rows[i].request_id.as_str(), request_id) {
                proof { lemma_first_index_at(self.rows@, row_has_id(request_id@), i as int); }
                return Some(i);
            }
        }
        proof { lemma_first_index_at(self.rows@, row_has_id(request_id@), self.rows@.len() as int); }
        None
    }

    /// The pending request `request_id`, if there is one.
    pub fn pending(&self, request_id: &str) -> (entry: Option<&PendingRequest>)
        ensures
            match entry {
                Some(p) => self@.contains_key(request_id@) && self@[request_id@] == *p,
                None => !self@.contains_key(request_id@),
            },
    {
        match self.position_of(request_id) {
            Some(i) => Some(&self.rows[i].entry),
            None => None,
        }
    }

    /// Starts forwarding `request` from client `client` to the peer of
    /// `role`: when that peer is not connected the client is answered at
    /// once with `peer_unavailable`; otherwise the request becomes pending
    /// under its id (in place of one pending under the same id) and is sent
    /// to the peer.
    pub fn begin_forward(
        &mut self,
        request_id: String,
        client: u64,
        role: PeerRole,
        peer_connected: bool,
        request: RequestKind,
    ) -> (action: ForwardAction)
        ensures
            !peer_connected ==> final(self)@ == old(self)@ && (action matches ForwardAction::Reply(m) && failed_with(
                m,
                request_id@,
                "peer_unavailable"@,
                role_name(role) + " is not connected"@,
                true,
            )),
            peer_connected ==> final(self)@ == old(self)@.insert(
                request_id@,
                PendingRequest { client, role, forwarded: forwarded_of(request) },
            ) && action == ForwardAction::Send(role, WireMessage::Request { request_id, request }),
    {
        if !peer_connected {
            return ForwardAction::Reply(WireMessage::failure(request_id, peer_unavailable(role)));
        }
        proof { use_type_invariant(&*self); }
        let entry = PendingRequest { client, role, forwarded: Forwarded::of(&request) };
        let row = PendingRow { request_id: request_id.clone(), entry };
        let found = self.position_of(request_id.as_str());
        let mut rows: Vec<PendingRow> = Vec::new();
        std::mem::swap(&mut rows, &mut self.rows);
        let ghost before = rows@;
        proof { lemma_upsert_row(before, row); }
        match found {
            Some(i) => {
                rows.set(i, row);
            },
            None => {
                rows.push(row);
            },
        }
        proof { assert(rows@ == upsert_first(before, row_has_id(request_id@), row)); }
        self.rows = rows;
        ForwardAction::Send(role, WireMessage::Request { request_id, request })
    }

    /// Takes the pending request `request_id` out of the table.
    fn take(&mut self, request_id: &str) -> (entry: Option<PendingRequest>)
        ensures
            (final(self)@, entry) == taken(old(self)@, request_id@),
    {
        proof { use_type_invariant(&*self); }
        match self.position_of(request_id) {
            None => {
                proof { assert(!self@.contains_key(request_id@)); }
                None
            },
            Some(i) => {
                let mut rows: Vec<PendingRow> = Vec::new();
                std::mem::swap(&mut rows, &mut self.rows);
                let ghost before = rows@;
                let row = rows.remove(i);
                proof {
                    lemma_first_index(before, row_has_id(request_id@));
                    assert(before[i as int].request_id@ == request_id@);
                    lemma_remove_row(before, i as int);
                    assert(pending_map(before).contains_key(request_id@));
                    assert(pending_map(before)[request_id@] == row.entry);
                }
                self.rows = rows;
                Some(row.entry)
            },
        }
    }

    /// The peer answered `request_id`: its pending request, taken out of
    /// the table, tells to which client the answer goes and what it means
    /// for the store; an answer to no pending request is dropped.
    pub fn response_arrived(&mut self, request_id: &str) -> (entry: Option<PendingRequest>)
        ensures
            (final(self)@, entry) == taken(old(self)@, request_id@),
    {
        self.take(request_id)
    }

    /// The request `request_id` could not be sent to its peer: it is no
    /// longer pending, and its client is answered with `peer_disconnected`.
    pub fn send_failed(&mut self, request_id: String) -> (reply: Option<(u64, WireMessage)>)
        ensures
            final(self)@ == taken(old(self)@, request_id@).0,
            match taken(old(self)@, request_id@).1 {
                Some(p) => reply matches Some((client, m)) && client == p.client && failed_with(
                    m,
                    request_id@,
                    "peer_disconnected"@,
                    "integration peer disconnected"@,
                    false,
                ),
                None => reply is None,
            },
    {
        match self.take(request_id.as_str()) {
            Some(entry) => Some((entry.client, WireMessage::failure(request_id, peer_disconnected()))),
            None => None,
        }
    }

    /// `REQUEST_TIMEOUT_SECS` have passed since `request_id` was sent: if it
    /// is still pending it no longer is, and its client is answered with
    /// `request_timeout`; otherwise nothing happens.
    pub fn timed_out(&mut self, request_id: String) -> (reply: Option<(u64, WireMessage)>)
        ensures
            final(self)@ == taken(old(self)@, request_id@).0,
            match taken(old(self)@, request_id@).1 {
                Some(p) => reply matches Some((client, m)) && client == p.client && failed_with(
                    m,
                    request_id@,
                    "request_timeout"@,
                    timeout_message(),
                    true,
                ),
                None => reply is None,
            },
    {
        match self.take(request_id.as_str()) {
            Some(entry) => Some((entry.client, WireMessage::failure(request_id, request_timeout()))),
            None => None,
        }
    }
}

/// A forwarded request is answered at most once.  An answer (the peer's
/// response, a failed send, a time-out) takes the request out of the table;
/// a second answer to the same id then finds nothing, and taking out other
/// requests does not bring it back.
pub proof fn lemma_answered_once(table: Map<Seq<char>, PendingRequest>, id: Seq<char>, other: Seq<char>)
    ensures
        !taken(table, id).0.contains_key(id),
        taken(taken(table, id).0, id).1 is None,
        !table.contains_key(id) ==> !taken(table, other).0.contains_key(id),
        !table.contains_key(id) ==> taken(table, id) == (table, None::<PendingRequest>),
{
}

} // verus!

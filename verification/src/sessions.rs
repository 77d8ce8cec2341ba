//! The chat sessions of a workspace, read from the index that VS Code keeps
//! in the workspace's state database, newest first.
use vstd::prelude::*;
use crate::api::{is_valid_arg, validate_as_string_arg};
use crate::flow::HttpStatus;
use crate::focus::rejection;
use crate::json::{
    get, i64_of, json_as_i64, json_as_object, json_as_str, json_get, object_of, parse_json,
    spec_parse_json, str_of, Json, JsonNumber,
};

verus! {

broadcast use {
    vstd::string::group_string_axioms,
    vstd::seq_lib::group_filter_ensures,
    vstd::seq::Seq::filter_distributes_over_add,
    vstd::seq::Seq::lemma_filter_push,
};

/// One listed session.
pub struct SessionInfo {
    pub id: String,
    pub title: String,
}

/// One index entry as the listing orders it: its last-message time, id and title.
pub struct SessionRecord {
    pub ts: i64,
    pub id: Seq<char>,
    pub title: Seq<char>,
}

/// What a session/time pair says.
pub open spec fn record_view(p: (i64, SessionInfo)) -> SessionRecord {
    SessionRecord { ts: p.0, id: p.1.id@, title: p.1.title@ }
}

/// What a sequence of session/time pairs says.
pub open spec fn record_views(s: Seq<(i64, SessionInfo)>) -> Seq<SessionRecord> {
    s.map_values(|p: (i64, SessionInfo)| record_view(p))
}

/// What a listed session says: its id and title.
pub open spec fn info_view(i: SessionInfo) -> (Seq<char>, Seq<char>) {
    (i.id@, i.title@)
}

/// What a sequence of listed sessions says.
pub open spec fn info_views(s: Seq<SessionInfo>) -> Seq<(Seq<char>, Seq<char>)> {
    s.map_values(|i: SessionInfo| info_view(i))
}

/// The id and title a record lists.
pub open spec fn record_info(r: SessionRecord) -> (Seq<char>, Seq<char>) {
    (r.id, r.title)
}

/// The record an index entry gives: none without a string `sessionId`; the
/// title is `New Chat` when `title` is missing, not a string or empty; the
/// time is 0 when `lastMessageDate` is missing or not an `i64`.
pub open spec fn record_of(entry: Json) -> Option<SessionRecord> {
    match get(entry, "sessionId"@) {
        Some(i) => match str_of(i) {
            Some(id) => Some(
                SessionRecord {
                    ts: match get(entry, "lastMessageDate"@) {
                        Some(t) => match i64_of(t) {
                            Some(n) => n,
                            None => 0,
                        },
                        None => 0,
                    },
                    id,
                    title: match get(entry, "title"@) {
                        Some(t) => match str_of(t) {
                            Some(s) => if s.len() > 0 {
                                s
                            } else {
                                "New Chat"@
                            },
                            None => "New Chat"@,
                        },
                        None => "New Chat"@,
                    },
                },
            ),
            None => None,
        },
        None => None,
    }
}

/// The records of the index entries, in the order of the entries.
pub open spec fn records(entries: Seq<(String, Json)>) -> Seq<SessionRecord>
    decreases entries.len(),
{
    if entries.len() == 0 {
        seq![]
    } else {
        let rest = records(entries.drop_last());
        match record_of(entries.last().1) {
            Some(r) => rest.push(r),
            None => rest,
        }
    }
}

/// The record has last-message time `t`.
pub open spec fn stamped(t: i64) -> spec_fn(SessionRecord) -> bool {
    |r: SessionRecord| r.ts == t
}

/// `order` lists the newest first.
pub open spec fn newest_first(order: Seq<SessionRecord>) -> bool {
    forall|i: int, j: int| 0 <= i < j < order.len() ==> order[i].ts >= order[j].ts
}

/// `order` holds exactly `records`, newest first, records with the same time
/// in their original order.
pub open spec fn arranged(records: Seq<SessionRecord>, order: Seq<SessionRecord>) -> bool {
    &&& newest_first(order)
    &&& forall|t: i64| #[trigger] order.filter(stamped(t)) == records.filter(stamped(t))
}

/// The record of one index entry.
fn entry_record(entry: &Json) -> (r: Option<(i64, SessionInfo)>)
    ensures
        match r {
            Some(p) => record_of(*entry) == Some(record_view(p)),
            None => record_of(*entry) is None,
        },
{
    let id = match json_get(entry, "sessionId") {
        Some(i) => match json_as_str(i) {
            Some(s) => s.clone(),
            None => return None,
        },
        None => return None,
    };
    let title = match json_get(entry, "title") {
        Some(t) => match json_as_str(t) {
            Some(s) => if s.as_str().is_empty() {
                String::from_str("New Chat")
            } else {
                s.clone()
            },
            None => String::from_str("New Chat"),
        },
        None => String::from_str("New Chat"),
    };
    let ts = match json_get(entry, "lastMessageDate") {
        Some(t) => match json_as_i64(t) {
            Some(n) => n,
            None => 0,
        },
        None => 0,
    };
    Some((ts, SessionInfo { id, title }))
}

/// `items` holding `rest` in the same order, `order` arranged from them,
/// once the front item is placed.
proof fn lemma_place(
    done: Seq<SessionRecord>,
    sorted: Seq<SessionRecord>,
    x: SessionRecord,
    p: int,
)
    requires
        arranged(done, sorted),
        0 <= p <= sorted.len(),
        forall|k: int| 0 <= k < p ==> sorted[k].ts >= x.ts,
        p < sorted.len() ==> sorted[p].ts < x.ts,
    ensures
        arranged(done.push(x), sorted.insert(p, x)),
{
    let ins = sorted.insert(p, x);
    let front = sorted.take(p);
    let back = sorted.skip(p);
    assert(sorted == front + back);
    assert(ins == front.push(x) + back);
    assert forall|k: int| 0 <= k < back.len() implies back[k].ts < x.ts by {
        assert(back[k] == sorted[p + k]);
        assert(sorted[p].ts >= sorted[p + k].ts);
    }
    assert forall|i: int, j: int| 0 <= i < j < ins.len() implies ins[i].ts >= ins[j].ts by {
        if j < p {
        } else if j == p {
        } else if i < p {
            assert(ins[j] == sorted[j - 1]);
            assert(sorted[i].ts >= sorted[j - 1].ts);
        } else if i == p {
            assert(ins[j] == back[j - 1 - p]);
        } else {
            assert(sorted[i - 1].ts >= sorted[j - 1].ts);
        }
    }
    assert forall|t: i64| #[trigger] ins.filter(stamped(t)) == done.push(x).filter(stamped(t)) by {
        let f = stamped(t);
        assert(ins.filter(f) == front.push(x).filter(f) + back.filter(f));
        assert(sorted.filter(f) == front.filter(f) + back.filter(f));
        if t == x.ts {
            back.lemma_all_neg_filter_empty(f);
            assert(back.filter(f) == Seq::<SessionRecord>::empty());
            assert(ins.filter(f) == front.filter(f).push(x));
            assert(sorted.filter(f) == front.filter(f));
        } else {
            assert(ins.filter(f) == front.filter(f) + back.filter(f));
        }
    }
}

/// The session/time pairs in `items`, newest first; pairs with the same time
/// keep their order.
pub fn sort_newest_first(items: Vec<(i64, SessionInfo)>) -> (r: Vec<(i64, SessionInfo)>)
    ensures
        arranged(record_views(items@), record_views(r@)),
{
    let ghost all = record_views(items@);
    let mut items = items;
    let mut out: Vec<(i64, SessionInfo)> = Vec::new();
    let ghost mut taken: int = 0;
    assert(all.take(0) == Seq::<SessionRecord>::empty());
    assert(record_views(out@) == Seq::<SessionRecord>::empty());
    assert(all.skip(0) == all);
    while items.len() > 0
        invariant
            0 <= taken <= all.len(),
            record_views(items@) == all.skip(taken),
            arranged(all.take(taken), record_views(out@)),
        decreases items.len(),
    {
        let ghost before = items@;
        let x = items.remove(0);
        let ghost xv = record_view(x);
        assert(record_views(before)[0] == record_view(before[0]));
        assert(record_views(before).len() == before.len());
        assert(taken < all.len());
        assert(all.skip(taken)[0] == all[taken]);
        assert(xv == all[taken]);
        assert(record_views(items@) == record_views(before).drop_first());
        assert(all.skip(taken).drop_first() == all.skip(taken + 1));
        let mut p: usize = 0;
        while p < out.len() && out[p].0 >= x.0
            invariant
                p <= out.len(),
                forall|k: int| 0 <= k < p ==> record_views(out@)[k].ts >= xv.ts,
                xv.ts == x.0,
            decreases out.len() - p,
        {
            p = p + 1;
        }
        proof {
            lemma_place(all.take(taken), record_views(out@), xv, p as int);
            assert(all.take(taken).push(xv) == all.take(taken + 1));
            assert(record_views(out@.insert(p as int, x)) == record_views(out@).insert(p as int, xv));
            taken = taken + 1;
        }
        out.insert(p, x);
    }
    assert(all.take(taken) == all);
    out
}

/// Two arrangements of the same records are the same sequence: the order
/// of a listing is fully determined by the records it lists.
pub proof fn lemma_arrangement_unique(a: Seq<SessionRecord>, b: Seq<SessionRecord>)
    requires
        newest_first(a),
        newest_first(b),
        forall|t: i64| #[trigger] a.filter(stamped(t)) == b.filter(stamped(t)),
    ensures
        a == b,
    decreases a.len(),
{
    if a.len() == 0 {
        if b.len() > 0 {
            let t = b[0].ts;
            assert(b.filter(stamped(t)).contains(b[0]));
            assert(a.filter(stamped(t)).len() == 0);
        }
    } else if b.len() == 0 {
        let t = a[0].ts;
        assert(a.filter(stamped(t)).contains(a[0]));
        assert(b.filter(stamped(t)).len() == 0);
    } else {
        let ta = a[0].ts;
        let tb = b[0].ts;
        assert(a == seq![a[0]] + a.drop_first());
        assert(b == seq![b[0]] + b.drop_first());
        a.drop_first().lemma_filter_prepend(a[0], stamped(ta));
        b.drop_first().lemma_filter_prepend(b[0], stamped(tb));
        assert(a.filter(stamped(ta)).len() > 0);
        let wb = b.filter(stamped(ta))[0];
        assert(b.filter(stamped(ta)).contains(wb));
        b.lemma_filter_contains_rev(stamped(ta), wb);
        assert(wb.ts == ta);
        let kb = choose|k: int| 0 <= k < b.len() && b[k] == wb;
        assert(tb >= ta) by {
            if kb > 0 {
                assert(b[0].ts >= b[kb].ts);
            }
        }
        assert(b.filter(stamped(tb)).len() > 0);
        let wa = a.filter(stamped(tb))[0];
        assert(a.filter(stamped(tb)).contains(wa));
        a.lemma_filter_contains_rev(stamped(tb), wa);
        assert(wa.ts == tb);
        let ka = choose|k: int| 0 <= k < a.len() && a[k] == wa;
        assert(ta >= tb) by {
            if ka > 0 {
                assert(a[0].ts >= a[ka].ts);
            }
        }
        assert(a.filter(stamped(ta))[0] == a[0]);
        assert(b.filter(stamped(ta))[0] == b[0]);
        assert(a[0] == b[0]);
        let ra = a.drop_first();
        let rb = b.drop_first();
        assert forall|t: i64| #[trigger] ra.filter(stamped(t)) == rb.filter(stamped(t)) by {
            ra.lemma_filter_prepend(a[0], stamped(t));
            rb.lemma_filter_prepend(b[0], stamped(t));
            assert(a.filter(stamped(t)) == b.filter(stamped(t)));
            if t == ta {
                assert(ra.filter(stamped(t)) == a.filter(stamped(t)).drop_first());
                assert(rb.filter(stamped(t)) == b.filter(stamped(t)).drop_first());
            } else {
                assert(ra.filter(stamped(t)) == a.filter(stamped(t)));
                assert(rb.filter(stamped(t)) == b.filter(stamped(t)));
            }
        }
        assert(newest_first(ra)) by {
            assert forall|i: int, j: int| 0 <= i < j < ra.len() implies ra[i].ts >= ra[j].ts by {
                assert(a[i + 1].ts >= a[j + 1].ts);
            }
        }
        assert(newest_first(rb)) by {
            assert forall|i: int, j: int| 0 <= i < j < rb.len() implies rb[i].ts >= rb[j].ts by {
                assert(b[i + 1].ts >= b[j + 1].ts);
            }
        }
        lemma_arrangement_unique(ra, rb);
    }
}

/// The entries of a session index: the members of its `entries` object.
pub open spec fn index_entries(index: Json) -> Option<Seq<(String, Json)>> {
    match get(index, "entries"@) {
        Some(e) => object_of(e),
        None => None,
    }
}

/// The error for an index without an `entries` object.
pub open spec fn no_entries_message() -> Seq<char> {
    "No 'entries' object in chat session index"@
}

/// `list` is what `index` lists: the records of its entries arranged newest
/// first (an arrangement that `lemma_arrangement_unique` shows is unique).
pub open spec fn lists_index(index: Json, list: Seq<SessionInfo>) -> bool {
    exists|order: Seq<SessionRecord>|
        #[trigger] arranged(records(index_entries(index).unwrap()), order) && info_views(list)
            == order.map_values(|x: SessionRecord| record_info(x))
}

/// The sessions a chat session index lists: one per entry with a string
/// `sessionId`, newest first, entries with the same time in index order.
/// Without an `entries` object the error says so.
pub fn sessions_from_index(index: &Json) -> (r: Result<Vec<SessionInfo>, String>)
    ensures
        r is Ok <==> index_entries(*index) is Some,
        r matches Ok(list) ==> lists_index(*index, list@),
        r matches Err(msg) ==> msg@ == no_entries_message(),
{
    let members = match json_get(index, "entries") {
        Some(e) => match json_as_object(e) {
            Some(m) => m,
            None => return Err(String::from_str("No 'entries' object in chat session index")),
        },
        None => return Err(String::from_str("No 'entries' object in chat session index")),
    };
    let mut found: Vec<(i64, SessionInfo)> = Vec::new();
    let mut i: usize = 0;
    assert(members@.take(0) == Seq::<(String, Json)>::empty());
    assert(record_views(found@) == Seq::<SessionRecord>::empty());
    while i < members.len()
        invariant
            i <= members.len(),
            index_entries(*index) == Some(members@),
            record_views(found@) == records(members@.take(i as int)),
        decreases members.len() - i,
    {
        assert(members@.take(i + 1).drop_last() == members@.take(i as int));
        assert(members@.take(i + 1).last() == members@[i as int]);
        match entry_record(&members[i].1) {
            Some(p) => {
                assert(record_views(found@.push(p)) == record_views(found@).push(record_view(p)));
                found.push(p);
            },
            None => {},
        }
        i = i + 1;
    }
    assert(members@.take(members.len() as int) == members@);
    let sorted = sort_newest_first(found);
    let mut list: Vec<SessionInfo> = Vec::new();
    let mut k: usize = 0;
    while k < sorted.len()
        invariant
            k <= sorted.len(),
            arranged(records(index_entries(*index).unwrap()), record_views(sorted@)),
            info_views(list@) == record_views(sorted@).take(k as int).map_values(
                |x: SessionRecord| record_info(x),
            ),
        decreases sorted.len() - k,
    {
        let info = SessionInfo { id: sorted[k].1.id.clone(), title: sorted[k].1.title.clone() };
        assert(record_views(sorted@).take(k + 1) == record_views(sorted@).take(k as int).push(
            record_view(sorted@[k as int]),
        ));
        assert(info_views(list@.push(info)) == info_views(list@).push(info_view(info)));
        list.push(info);
        k = k + 1;
    }
    assert(record_views(sorted@).take(sorted.len() as int) == record_views(sorted@));
    assert(info_views(list@) == record_views(sorted@).map_values(|x: SessionRecord| record_info(x)));
    Ok(list)
}

/// The sessions that the index value `value`, as stored in the state
/// database, lists. A value that is not JSON is refused with the parse error;
/// otherwise the result is what `sessions_from_index` gives for the document.
pub fn sessions_from_index_text(value: &str) -> (r: Result<Vec<SessionInfo>, String>)
    ensures
        match spec_parse_json(value@) {
            Ok(index) => (r is Ok <==> index_entries(index) is Some) && (r matches Ok(list)
                ==> lists_index(index, list@)) && (r matches Err(msg) ==> msg@ == no_entries_message()),
            Err(e) => r matches Err(msg) && msg@ == "Cannot parse chat session index JSON: "@ + e,
        },
{
    match parse_json(value) {
        Ok(index) => sessions_from_index(&index),
        Err(e) => {
            let mut msg = String::from_str("Cannot parse chat session index JSON: ");
            msg.append(e.as_str());
            Err(msg)
        },
    }
}

// ---------------------------------------------------------------------------
// Answering a session listing
// ---------------------------------------------------------------------------

/// A request to list the sessions of a window.
pub struct ListSessionsRequest {
    /// Process name of the application, e.g. `Code - Insiders`.
    pub app_name: String,
    /// The title of the window.
    pub window_name: String,
}

/// The answer to a session listing.
pub struct SessionsResponse {
    pub success: bool,
    pub message: Option<String>,
    pub sessions: Vec<SessionInfo>,
}

/// The answer when the listing cannot start: a bad request for an invalid
/// application name; nothing otherwise. The window name is not checked.
pub fn list_sessions_rejection(app_name: &str) -> (r: Option<(HttpStatus, SessionsResponse)>)
    ensures
        r is Some <==> !is_valid_arg(app_name@),
        r matches Some((status, resp)) ==> status == HttpStatus::BadRequest && !resp.success
            && (resp.message matches Some(m) && m@ == rejection("app_name"@, app_name@))
            && resp.sessions@.len() == 0,
{
    match validate_as_string_arg("app_name", app_name) {
        Err(e) => Some(
            (
                HttpStatus::BadRequest,
                SessionsResponse { success: false, message: Some(e.message), sessions: Vec::new() },
            ),
        ),
        Ok(()) => None,
    }
}

/// The answer for the sessions found, or for the error that stopped the
/// listing.
pub fn list_sessions_reply(result: Result<Vec<SessionInfo>, String>) -> (r: (HttpStatus, SessionsResponse))
    ensures
        match result {
            Ok(sessions) => r.0 == HttpStatus::Success && r.1.success && r.1.message is None
                && r.1.sessions == sessions,
            Err(e) => r.0 == HttpStatus::BadRequest && !r.1.success && (r.1.message matches Some(m)
                && m@ == "List sessions failed: "@ + e@) && r.1.sessions@.len() == 0,
        },
{
    match result {
        Ok(sessions) => (HttpStatus::Success, SessionsResponse { success: true, message: None, sessions }),
        Err(e) => {
            let mut m = String::from_str("List sessions failed: ");
            m.append(e.as_str());
            (
                HttpStatus::BadRequest,
                SessionsResponse { success: false, message: Some(m), sessions: Vec::new() },
            )
        },
    }
}

/// An index entry with a string `sessionId` is listed under that id, and
/// at the time its `lastMessageDate` records, unchanged: a 64-bit integer
/// keeps its value (a non-negative one above `i64::MAX`, a fraction, or a
/// missing date counts as 0). The listing puts later times first
/// (`arranged`), so it follows the recorded dates.
pub proof fn lemma_record_keeps_recorded_time(e: Json)
    ensures
        match get(e, "sessionId"@) {
            Some(Json::Str(id)) => record_of(e) is Some && record_of(e)->Some_0.id == id@
                && match get(e, "lastMessageDate"@) {
                Some(Json::Number(JsonNumber::PosInt(n))) => record_of(e)->Some_0.ts == if n
                    <= 9223372036854775807u64 {
                    n as int
                } else {
                    0
                },
                Some(Json::Number(JsonNumber::NegInt(n))) => record_of(e)->Some_0.ts == n,
                _ => record_of(e)->Some_0.ts == 0,
            },
            _ => record_of(e) is None,
        },
{
}

/// Each record occurs in `s` as often as among the records of its time.
proof fn lemma_count_within_time(s: Seq<SessionRecord>, x: SessionRecord)
    ensures
        s.to_multiset().count(x) == s.filter(stamped(x.ts)).to_multiset().count(x),
    decreases s.len(),
{
    broadcast use vstd::multiset::group_multiset_axioms;

    if s.len() == 0 {
        assert(s.filter(stamped(x.ts)) == Seq::<SessionRecord>::empty());
        s.to_multiset_ensures();
        s.filter(stamped(x.ts)).to_multiset_ensures();
        assert(!s.contains(x));
        assert(!s.filter(stamped(x.ts)).contains(x));
    } else {
        let t = s.drop_last();
        let e = s.last();
        assert(s == t.push(e));
        lemma_count_within_time(t, x);
        t.to_multiset_ensures();
        t.filter(stamped(x.ts)).to_multiset_ensures();
        assert(t.push(e).filter(stamped(x.ts)) == if stamped(x.ts)(e) {
            t.filter(stamped(x.ts)).push(e)
        } else {
            t.filter(stamped(x.ts))
        });
    }
}

/// A listing holds exactly the sessions that the index yields, each as
/// often as the index has it, the later ones first: no session is dropped,
/// added or repeated, and of two listed sessions the earlier in the list has
/// the later or the same time.
pub proof fn lemma_listing_is_the_index_newest_first(rs: Seq<SessionRecord>, order: Seq<SessionRecord>)
    requires
        arranged(rs, order),
    ensures
        order.to_multiset() == rs.to_multiset(),
        order.len() == rs.len(),
        forall|i: int, j: int| 0 <= i < j < order.len() ==> #[trigger] order[i].ts >= #[trigger] order[j].ts,
{
    assert forall|x: SessionRecord| order.to_multiset().count(x) == rs.to_multiset().count(x) by {
        lemma_count_within_time(order, x);
        lemma_count_within_time(rs, x);
        assert(order.filter(stamped(x.ts)) == rs.filter(stamped(x.ts)));
    }
    assert(order.to_multiset() =~= rs.to_multiset());
    order.to_multiset_ensures();
    rs.to_multiset_ensures();
}

} // verus!

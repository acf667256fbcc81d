//! What holds of the store across calls.

use crate::api::ProgressPutReqView;
use crate::digest::sha256_hex;
use crate::store::{
    lemma_keyed_unique, lemma_put_wf, pushed, stamped, RecordView, StoreError, StoreView, UserView,
};
use vstd::prelude::*;

verus! {

/// Outside anonymous mode, registering a username that is not registered
/// succeeds, the identity exists afterwards, and registering it again is
/// refused as already existing.
pub proof fn lemma_create_then_exists(s: StoreView, name: Seq<char>, hash: Seq<char>)
    requires
        s.wf(),
        !s.noauth,
        !s.registered(name),
    ensures
        s.create_result(name) == Ok::<(), StoreError>(()),
        s.user_create(name, hash).user_exists(name),
        s.user_create(name, hash).create_result(name) == Err::<(), StoreError>(
            StoreError::AlreadyExists,
        ),
        s.user_create(name, hash).user_create(name, hash) == s.user_create(name, hash),
{
    let t = s.user_create(name, hash);
    assert(t.users[s.users.len() as int].name == name);
}

/// After a username was registered with one password, another password
/// authenticates it exactly when the two have the same hash; the password
/// of the registration does.
pub proof fn lemma_auth_after_create(
    s: StoreView,
    name: Seq<char>,
    password: Seq<char>,
    attempt: Seq<char>,
)
    requires
        s.wf(),
        !s.noauth,
        !s.registered(name),
    ensures
        s.user_create(name, sha256_hex(password)).user_auth(name, sha256_hex(attempt)) <==> sha256_hex(
            attempt,
        ) == sha256_hex(password),
        s.user_create(name, sha256_hex(password)).user_auth(name, sha256_hex(password)),
{
    let t = s.user_create(name, sha256_hex(password));
    let last = s.users.len() as int;
    assert(t.users[last] == (UserView { name, hash: sha256_hex(password) }));
    let want = UserView { name, hash: sha256_hex(attempt) };
    if t.users.contains(want) {
        let k = choose|k: int| 0 <= k < t.users.len() && t.users[k] == want;
        if k < last {
            assert(s.users[k].name == name);
        }
    }
}

/// Outside anonymous mode, no password authenticates a username that is not
/// registered.
pub proof fn lemma_auth_unknown_user(s: StoreView, name: Seq<char>, hash: Seq<char>)
    requires
        !s.user_exists(name),
    ensures
        !s.user_auth(name, hash),
{
    let want = UserView { name, hash };
    if s.users.contains(want) {
        let k = choose|k: int| 0 <= k < s.users.len() && s.users[k] == want;
        assert(s.users[k].name == name);
    }
}

/// Registering another username changes nothing in what authenticates a
/// username.
pub proof fn lemma_create_keeps_others(
    s: StoreView,
    name: Seq<char>,
    hash: Seq<char>,
    other: Seq<char>,
    other_hash: Seq<char>,
)
    requires
        other != name,
    ensures
        s.user_create(other, other_hash).user_auth(name, hash) == s.user_auth(name, hash),
        s.user_create(other, other_hash).user_exists(name) == s.user_exists(name),
        s.user_create(other, other_hash).records == s.records,
{
    let t = s.user_create(other, other_hash);
    let want = UserView { name, hash };
    if s.users.contains(want) {
        let k = choose|k: int| 0 <= k < s.users.len() && s.users[k] == want;
        assert(t.users[k] == want);
    }
    if t.users.contains(want) {
        let k = choose|k: int| 0 <= k < t.users.len() && t.users[k] == want;
        assert(s.users[k] == want);
    }
    if s.registered(name) {
        let k = choose|k: int| 0 <= k < s.users.len() && s.users[k].name == name;
        assert(t.users[k].name == name);
    }
    if t.registered(name) {
        let k = choose|k: int| 0 <= k < t.users.len() && t.users[k].name == name;
        assert(s.users[k].name == name);
    }
}

/// Writing a record changes no identity, and no record under another key.
pub proof fn lemma_put_keeps_others(s: StoreView, rec: RecordView, i: int)
    requires
        s.wf(),
        0 <= i < s.records.len(),
        !s.keyed(i, rec.owner, rec.device_id, rec.document),
    ensures
        s.put(rec).users == s.users,
        s.put(rec).noauth == s.noauth,
        s.put(rec).records[i] == s.records[i],
{
}

/// In anonymous mode every username exists and every password
/// authenticates, whatever was registered.
pub proof fn lemma_anonymous_accepts_all(s: StoreView, name: Seq<char>, hash: Seq<char>)
    requires
        s.noauth,
    ensures
        s.user_exists(name),
        s.user_auth(name, hash),
        s.create_result(name) == Ok::<(), StoreError>(()),
        s.user_create(name, hash) == s,
{
}

/// At most one record is the current one of a document.
pub proof fn lemma_wins_unique(
    s: StoreView,
    i: int,
    j: int,
    owner: Seq<char>,
    document: Seq<char>,
)
    requires
        s.wins(i, owner, document),
        s.wins(j, owner, document),
    ensures
        i == j,
        s.latest(owner, document) == s.records[i].data,
{
    assert(s.competes(i, owner, document));
    assert(s.competes(j, owner, document));
    let c = choose|c: int| s.wins(c, owner, document);
    assert(s.competes(c, owner, document));
}

/// A document that no device of the identity has pushed has no current
/// record; in particular a store without records has none.
pub proof fn lemma_latest_none(s: StoreView, owner: Seq<char>, document: Seq<char>)
    requires
        forall|i: int| !s.competes(i, owner, document),
    ensures
        s.latest(owner, document) is None,
{
    assert forall|i: int| !s.wins(i, owner, document) by {
        assert(!s.competes(i, owner, document));
    }
}

/// Among the first `n` records, where one competes, one leads: none is
/// newer, and each competing one before it is older.
proof fn lemma_leader(s: StoreView, owner: Seq<char>, document: Seq<char>, n: int) -> (b: int)
    requires
        0 <= n <= s.records.len(),
        exists|j: int| 0 <= j < n && s.competes(j, owner, document),
    ensures
        0 <= b < n,
        s.competes(b, owner, document),
        forall|j: int|
            0 <= j < n && #[trigger] s.competes(j, owner, document) ==> {
                &&& s.records[j].time() <= s.records[b].time()
                &&& j < b ==> s.records[j].time() < s.records[b].time()
            },
    decreases n,
{
    if exists|j: int| 0 <= j < n - 1 && s.competes(j, owner, document) {
        let b = lemma_leader(s, owner, document, n - 1);
        if s.competes(n - 1, owner, document) && s.records[n - 1].time()
            > s.records[b].time() {
            n - 1
        } else {
            b
        }
    } else {
        let j = choose|j: int| 0 <= j < n && s.competes(j, owner, document);
        assert(j == n - 1);
        n - 1
    }
}

/// A document has a current record exactly when some device of the identity
/// has pushed it.
pub proof fn lemma_latest_some(s: StoreView, owner: Seq<char>, document: Seq<char>)
    ensures
        s.latest(owner, document) is Some <==> exists|i: int| s.competes(i, owner, document),
{
    if exists|i: int| s.competes(i, owner, document) {
        let i = choose|i: int| s.competes(i, owner, document);
        assert(0 <= i < s.records.len() && s.competes(i, owner, document));
        let b = lemma_leader(s, owner, document, s.records.len() as int);
        assert(s.wins(b, owner, document));
    } else {
        lemma_latest_none(s, owner, document);
    }
}

/// A read after a write that selects the written device's record returns
/// the record as it was written.
pub proof fn lemma_put_then_latest(s: StoreView, rec: RecordView, i: int)
    requires
        s.wf(),
        s.put(rec).wins(i, rec.owner, rec.document),
        s.put(rec).records[i].device_id == rec.device_id,
    ensures
        s.put(rec).latest(rec.owner, rec.document) == rec.data,
{
    let t = s.put(rec);
    lemma_put_wf(s, rec);
    let k = if exists|c: int| s.keyed(c, rec.owner, rec.device_id, rec.document) {
        choose|c: int| s.keyed(c, rec.owner, rec.device_id, rec.document)
    } else {
        s.records.len() as int
    };
    assert(t.records[k] == rec);
    assert(t.keyed(k, rec.owner, rec.device_id, rec.document));
    assert(t.competes(i, rec.owner, rec.document));
    assert(t.keyed(i, rec.owner, rec.device_id, rec.document));
    lemma_keyed_unique(t, i, k, rec.owner, rec.device_id, rec.document);
    lemma_wins_unique(t, i, i, rec.owner, rec.document);
}

/// A push round-trips: where a read after a push selects the pushing
/// device's record, it returns the push's device, document, percentage and
/// progress as they came, under the time that the store assigned.
pub proof fn lemma_push_round_trip(
    s: StoreView,
    owner: Seq<char>,
    req: ProgressPutReqView,
    time: u64,
    i: int,
)
    requires
        s.wf(),
        s.put(pushed(owner, req, time)).wins(i, owner, req.document),
        s.put(pushed(owner, req, time)).records[i].device_id == req.device_id,
    ensures
        s.put(pushed(owner, req, time)).latest(owner, req.document) == Some(stamped(req, time)),
        stamped(req, time).percentage == req.percentage,
        stamped(req, time).progress == req.progress,
        stamped(req, time).device == req.device,
        stamped(req, time).document == req.document,
        stamped(req, time).device_id == req.device_id,
        stamped(req, time).timestamp == time,
{
    lemma_put_then_latest(s, pushed(owner, req, time), i);
}

/// The place of a record after it was written.
pub open spec fn place_of(s: StoreView, rec: RecordView) -> int {
    if exists|c: int| s.keyed(c, rec.owner, rec.device_id, rec.document) {
        choose|c: int| s.keyed(c, rec.owner, rec.device_id, rec.document)
    } else {
        s.records.len() as int
    }
}

/// Last write wins: a record written with a later time than every other
/// device's record of the document is the current one afterwards.
pub proof fn lemma_newest_push_wins(s: StoreView, rec: RecordView)
    requires
        s.wf(),
        rec.data is Some,
        forall|i: int| #[trigger]
            s.competes(i, rec.owner, rec.document) && s.records[i].device_id != rec.device_id
                ==> s.records[i].time() < rec.time(),
    ensures
        s.put(rec).latest(rec.owner, rec.document) == rec.data,
{
    let t = s.put(rec);
    let k = place_of(s, rec);
    assert(t.records[k] == rec);
    assert(t.competes(k, rec.owner, rec.document));
    assert forall|j: int| #[trigger] t.competes(j, rec.owner, rec.document) implies {
        &&& t.records[j].time() <= t.records[k].time()
        &&& j < k ==> t.records[j].time() < t.records[k].time()
    } by {
        if j != k {
            assert(t.records[j] == s.records[j]);
            assert(s.competes(j, rec.owner, rec.document));
            if s.records[j].device_id == rec.device_id {
                assert(s.keyed(j, rec.owner, rec.device_id, rec.document));
                lemma_keyed_unique(s, j, k, rec.owner, rec.device_id, rec.document);
            }
        }
    }
    assert(t.wins(k, rec.owner, rec.document));
    lemma_wins_unique(t, k, k, rec.owner, rec.document);
}

/// A late push does not win: where another device holds the current record
/// of a document, writing an older record, or content that cannot be read,
/// leaves the current record as it is.
pub proof fn lemma_stale_push_keeps_latest(s: StoreView, rec: RecordView, w: int)
    requires
        s.wf(),
        s.wins(w, rec.owner, rec.document),
        s.records[w].device_id != rec.device_id,
        rec.data is Some ==> rec.time() < s.records[w].time(),
    ensures
        s.put(rec).latest(rec.owner, rec.document) == s.latest(rec.owner, rec.document),
{
    let t = s.put(rec);
    let k = place_of(s, rec);
    assert(s.competes(w, rec.owner, rec.document));
    assert(t.records[k] == rec);
    assert(k != w);
    assert(t.records[w] == s.records[w]);
    assert(t.competes(w, rec.owner, rec.document));
    assert forall|j: int| #[trigger] t.competes(j, rec.owner, rec.document) implies {
        &&& t.records[j].time() <= t.records[w].time()
        &&& j < w ==> t.records[j].time() < t.records[w].time()
    } by {
        if j != k {
            assert(t.records[j] == s.records[j]);
            assert(s.competes(j, rec.owner, rec.document));
        }
    }
    assert(t.wins(w, rec.owner, rec.document));
    lemma_wins_unique(t, w, w, rec.owner, rec.document);
    lemma_wins_unique(s, w, w, rec.owner, rec.document);
}

} // verus!

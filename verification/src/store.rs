//! The credential store and the progress store.
//!
//! The store is a key-value namespace held in memory. Identities are keyed by
//! username; progress records are keyed by identity, device and document. In
//! anonymous mode every caller is the one identity `noauth`, which always
//! exists and always authenticates.

use crate::api::{ProgressPutReq, ProgressPutReqView, ProgressPutRes};
use crate::args::Arguments;
use crate::digest::{hash_password, sha256_hex};
use crate::text::same_text;
use vstd::prelude::*;

verus! {

/// One device's latest reported position in one document.
#[derive(Debug)]
pub struct DocumentData {
    pub device_id: String,
    pub percentage: String,
    pub document: String,
    pub progress: String,
    pub device: String,
    pub timestamp: u64,
}

/// A progress record as plain values.
pub struct DocumentDataView {
    pub device_id: Seq<char>,
    pub percentage: Seq<char>,
    pub document: Seq<char>,
    pub progress: Seq<char>,
    pub device: Seq<char>,
    pub timestamp: u64,
}

impl View for DocumentData {
    type V = DocumentDataView;

    open spec fn view(&self) -> DocumentDataView {
        DocumentDataView {
            device_id: self.device_id@,
            percentage: self.percentage@,
            document: self.document@,
            progress: self.progress@,
            device: self.device@,
            timestamp: self.timestamp,
        }
    }
}

impl Clone for DocumentData {
    fn clone(&self) -> (res: DocumentData)
        ensures
            res@ == self@,
    {
        DocumentData {
            device_id: self.device_id.clone(),
            percentage: self.percentage.clone(),
            document: self.document.clone(),
            progress: self.progress.clone(),
            device: self.device.clone(),
            timestamp: self.timestamp,
        }
    }
}

/// The record that a push becomes: the client's fields as they came, under
/// the time that the service assigned.
pub open spec fn stamped(req: ProgressPutReqView, time: u64) -> DocumentDataView {
    DocumentDataView {
        device_id: req.device_id,
        percentage: req.percentage,
        document: req.document,
        progress: req.progress,
        device: req.device,
        timestamp: time,
    }
}

/// A record as plain values, where there is one.
pub open spec fn record_view(data: Option<DocumentData>) -> Option<DocumentDataView> {
    match data {
        Some(d) => Some(d@),
        None => None,
    }
}

/// What a push by `owner` puts into the store: the stamped record, under
/// the device and the document that it names.
pub open spec fn pushed(owner: Seq<char>, req: ProgressPutReqView, time: u64) -> RecordView {
    RecordView {
        owner,
        device_id: req.device_id,
        document: req.document,
        data: Some(stamped(req, time)),
    }
}

impl DocumentData {
    /// Builds the record for a push received at `time`.
    pub fn stamp(req: &ProgressPutReq, time: u64) -> (res: DocumentData)
        ensures
            res@ == stamped(req@, time),
    {
        DocumentData {
            device_id: req.device_id.clone(),
            percentage: req.percentage.clone(),
            document: req.document.clone(),
            progress: req.progress.clone(),
            device: req.device.clone(),
            timestamp: time,
        }
    }
}

/// Why a store operation was refused.
#[derive(Clone, Copy, Debug, PartialEq, Eq, Structural)]
pub enum StoreError {
    /// The username is already registered.
    AlreadyExists,
    /// The identity does not exist.
    NotFound,
}

/// A registered identity: its username and the hash of its password.
pub struct UserView {
    pub name: Seq<char>,
    pub hash: Seq<char>,
}

/// What the store keeps under one key: the identity, device and document
/// that make the key, and the record, or `None` where what is kept there
/// cannot be read as a record.
pub struct RecordView {
    pub owner: Seq<char>,
    pub device_id: Seq<char>,
    pub document: Seq<char>,
    pub data: Option<DocumentDataView>,
}

impl RecordView {
    /// The time of the record kept here.
    pub open spec fn time(self) -> u64
        recommends
            self.data is Some,
    {
        self.data->0.timestamp
    }
}

/// The store as plain values. `records` is in the order in which the keys
/// were first written, which is the order in which a read walks them.
pub struct StoreView {
    pub noauth: bool,
    pub users: Seq<UserView>,
    pub records: Seq<RecordView>,
}

impl StoreView {
    /// Record `i` is the one kept for this identity, device and document.
    pub open spec fn keyed(
        self,
        i: int,
        owner: Seq<char>,
        device_id: Seq<char>,
        document: Seq<char>,
    ) -> bool {
        &&& 0 <= i < self.records.len()
        &&& self.records[i].owner == owner
        &&& self.records[i].device_id == device_id
        &&& self.records[i].document == document
    }

    /// No username is registered twice, and no key holds two records.
    pub open spec fn wf(self) -> bool {
        &&& forall|i: int, j: int|
            #![trigger self.users[i], self.users[j]]
            0 <= i < j < self.users.len() ==> self.users[i].name != self.users[j].name
        &&& forall|i: int, j: int|
            #![trigger self.records[i], self.records[j]]
            0 <= i < j < self.records.len() ==> !self.keyed(
                i,
                self.records[j].owner,
                self.records[j].device_id,
                self.records[j].document,
            )
    }

    /// The username has been registered.
    pub open spec fn registered(self, name: Seq<char>) -> bool {
        exists|i: int| 0 <= i < self.users.len() && (#[trigger] self.users[i]).name == name
    }

    /// The identity exists: always in anonymous mode, else when registered.
    pub open spec fn user_exists(self, name: Seq<char>) -> bool {
        self.noauth || self.registered(name)
    }

    /// A password with this hash authenticates the username.
    pub open spec fn user_auth(self, name: Seq<char>, hash: Seq<char>) -> bool {
        self.noauth || self.users.contains(UserView { name, hash })
    }

    /// The identity under which a caller's records are kept.
    pub open spec fn identity(self, name: Seq<char>) -> Seq<char> {
        if self.noauth {
            "noauth"@
        } else {
            name
        }
    }

    /// The store with one more registered identity.
    pub open spec fn with_user(self, name: Seq<char>, hash: Seq<char>) -> StoreView {
        StoreView { users: self.users.push(UserView { name, hash }), ..self }
    }

    /// The store after a registration: unchanged where the identity exists.
    pub open spec fn user_create(self, name: Seq<char>, hash: Seq<char>) -> StoreView {
        if self.user_exists(name) {
            self
        } else {
            self.with_user(name, hash)
        }
    }

    /// The answer to a registration: refused for a registered username,
    /// except in anonymous mode, where registering does nothing and succeeds.
    pub open spec fn create_result(self, name: Seq<char>) -> Result<(), StoreError> {
        if !self.noauth && self.registered(name) {
            Err(StoreError::AlreadyExists)
        } else {
            Ok(())
        }
    }

    /// The store after a record was written: it replaces the record under
    /// its key, or is added behind the others where the key is new.
    pub open spec fn put(self, rec: RecordView) -> StoreView {
        if exists|i: int| self.keyed(i, rec.owner, rec.device_id, rec.document) {
            let i = choose|i: int| self.keyed(i, rec.owner, rec.device_id, rec.document);
            StoreView { records: self.records.update(i, rec), ..self }
        } else {
            StoreView { records: self.records.push(rec), ..self }
        }
    }

    /// Record `i` is some device's readable record of this identity for the
    /// document.
    pub open spec fn competes(self, i: int, owner: Seq<char>, document: Seq<char>) -> bool {
        &&& 0 <= i < self.records.len()
        &&& self.records[i].owner == owner
        &&& self.records[i].document == document
        &&& self.records[i].data is Some
    }

    /// Record `i` is the current one: no competing record is newer, and each
    /// one before it is older.
    pub open spec fn wins(self, i: int, owner: Seq<char>, document: Seq<char>) -> bool {
        &&& self.competes(i, owner, document)
        &&& forall|j: int| #[trigger]
            self.competes(j, owner, document) ==> {
                &&& self.records[j].time() <= self.records[i].time()
                &&& j < i ==> self.records[j].time() < self.records[i].time()
            }
    }

    /// The current progress of a document: the record with the greatest
    /// timestamp among the readable ones of the identity's devices, the first
    /// of them in the store's order where several share it; none where no
    /// device pushed. The protocol names no tie-break; this one is stable.
    pub open spec fn latest(self, owner: Seq<char>, document: Seq<char>) -> Option<
        DocumentDataView,
    > {
        if exists|i: int| self.wins(i, owner, document) {
            self.records[choose|i: int| self.wins(i, owner, document)].data
        } else {
            None
        }
    }
}

/// Registering a new username keeps the store's keys unique.
pub proof fn lemma_with_user_wf(s: StoreView, name: Seq<char>, hash: Seq<char>)
    requires
        s.wf(),
        !s.registered(name),
    ensures
        s.with_user(name, hash).wf(),
{
    let t = s.with_user(name, hash);
    assert forall|i: int, j: int| 0 <= i < j < t.users.len() implies t.users[i].name
        != t.users[j].name by {
        if j < s.users.len() {
            assert(s.users[i].name != s.users[j].name);
        } else {
            assert(s.users[i].name != name);
        }
    }
    assert forall|i: int, j: int| 0 <= i < j < t.records.len() implies !t.keyed(
        i,
        t.records[j].owner,
        t.records[j].device_id,
        t.records[j].document,
    ) by {
        assert(!s.keyed(
            i,
            s.records[j].owner,
            s.records[j].device_id,
            s.records[j].document,
        ));
    }
}

/// Writing a record keeps the store's keys unique.
pub proof fn lemma_put_wf(s: StoreView, rec: RecordView)
    requires
        s.wf(),
    ensures
        s.put(rec).wf(),
{
    let t = s.put(rec);
    assert forall|i: int, j: int| 0 <= i < j < t.users.len() implies t.users[i].name
        != t.users[j].name by {
        assert(s.users[i].name != s.users[j].name);
    }
    if exists|i: int| s.keyed(i, rec.owner, rec.device_id, rec.document) {
        let c = choose|i: int| s.keyed(i, rec.owner, rec.device_id, rec.document);
        assert forall|i: int, j: int| 0 <= i < j < t.records.len() implies !t.keyed(
            i,
            t.records[j].owner,
            t.records[j].device_id,
            t.records[j].document,
        ) by {
            assert(!s.keyed(
                i,
                s.records[j].owner,
                s.records[j].device_id,
                s.records[j].document,
            ));
        }
    } else {
        assert forall|i: int, j: int| 0 <= i < j < t.records.len() implies !t.keyed(
            i,
            t.records[j].owner,
            t.records[j].device_id,
            t.records[j].document,
        ) by {
            if j < s.records.len() {
                assert(!s.keyed(
                    i,
                    s.records[j].owner,
                    s.records[j].device_id,
                    s.records[j].document,
                ));
            } else {
                assert(!s.keyed(i, rec.owner, rec.device_id, rec.document));
            }
        }
    }
}

/// Under unique keys, the record kept for a key is the only one with it.
pub proof fn lemma_keyed_unique(
    s: StoreView,
    i: int,
    j: int,
    owner: Seq<char>,
    device_id: Seq<char>,
    document: Seq<char>,
)
    requires
        s.wf(),
        s.keyed(i, owner, device_id, document),
        s.keyed(j, owner, device_id, document),
    ensures
        i == j,
{
    if i < j {
        assert(!s.keyed(
            i,
            s.records[j].owner,
            s.records[j].device_id,
            s.records[j].document,
        ));
    } else if j < i {
        assert(!s.keyed(
            j,
            s.records[i].owner,
            s.records[i].device_id,
            s.records[i].document,
        ));
    }
}

struct User {
    name: String,
    passwd: String,
}

struct Record {
    owner: String,
    device_id: String,
    document: String,
    data: Option<DocumentData>,
}

/// The credential store and the progress store of one service.
pub struct Store {
    noauth: bool,
    users: Vec<User>,
    records: Vec<Record>,
}

impl View for Store {
    type V = StoreView;

    closed spec fn view(&self) -> StoreView {
        StoreView {
            noauth: self.noauth,
            users: Seq::new(
                self.users.len() as nat,
                |i: int| UserView { name: self.users[i].name@, hash: self.users[i].passwd@ },
            ),
            records: Seq::new(
                self.records.len() as nat,
                |i: int|
                    RecordView {
                        owner: self.records[i].owner@,
                        device_id: self.records[i].device_id@,
                        document: self.records[i].document@,
                        data: record_view(self.records[i].data),
                    },
            ),
        }
    }
}

impl Store {
    /// The store's keys are unique.
    pub open spec fn wf(&self) -> bool {
        self@.wf()
    }

    /// An empty store in the mode that the configuration asks for.
    pub fn new(args: &Arguments) -> (s: Store)
        ensures
            s.wf(),
            s@ == (StoreView { noauth: args.noauth, users: Seq::empty(), records: Seq::empty() }),
    {
        let s = Store { noauth: args.noauth, users: Vec::new(), records: Vec::new() };
        assert(s@.users =~= Seq::empty());
        assert(s@.records =~= Seq::empty());
        s
    }

    /// Whether the store runs in anonymous mode.
    pub fn noauth(&self) -> (b: bool)
        ensures
            b == self@.noauth,
    {
        self.noauth
    }

    /// The place of a registered username.
    fn find_user(&self, username: &str) -> (r: Option<usize>)
        ensures
            match r {
                Some(i) => i < self@.users.len() && self@.users[i as int].name == username@,
                None => !self@.registered(username@),
            },
    {
        let n: usize = self.users.len();
        let mut i: usize = 0;
        while i < n
            invariant
                n == self.users.len(),
                n == self@.users.len(),
                i <= n,
                forall|j: int| 0 <= j < i ==> self@.users[j].name != username@,
            decreases n - i,
        {
            if same_text(self.users[i].name.as_str(), username) {
                return Some(i);
            }
            i += 1;
        }
        None
    }

    /// Whether the identity exists. Absence is an answer, not a failure.
    pub fn user_exists(&self, username: &str) -> (b: bool)
        ensures
            b == self@.user_exists(username@),
    {
        if self.noauth {
            return true;
        }
        self.find_user(username).is_some()
    }

    /// Registers an identity under an already hashed password.
    ///
    /// In anonymous mode nothing is stored and the call succeeds. Otherwise a
    /// registered username is refused, and a new one is stored with the hash.
    pub fn user_insert(&mut self, username: &str, hash: String) -> (r: Result<(), StoreError>)
        requires
            old(self).wf(),
        ensures
            final(self).wf(),
            final(self)@ == old(self)@.user_create(username@, hash@),
            r == old(self)@.create_result(username@),
    {
        if self.noauth {
            return Ok(());
        }
        if self.find_user(username).is_some() {
            return Err(StoreError::AlreadyExists);
        }
        let ghost before = self@;
        self.users.push(User { name: username.to_owned(), passwd: hash });
        proof {
            assert(self@.users =~= before.users.push(UserView { name: username@, hash: hash@ }));
            assert(self@.records =~= before.records);
            lemma_with_user_wf(before, username@, hash@);
        }
        Ok(())
    }

    /// Registers an identity with the password it will authenticate with.
    ///
    /// The password is kept as its hash only. In anonymous mode nothing is
    /// stored and the call succeeds; a registered username is refused.
    pub fn user_create(&mut self, username: &str, password: &str) -> (r: Result<(), StoreError>)
        requires
            old(self).wf(),
        ensures
            final(self).wf(),
            final(self)@ == old(self)@.user_create(username@, sha256_hex(password@)),
            r == old(self)@.create_result(username@),
    {
        if self.noauth {
            return Ok(());
        }
        if self.user_exists(username) {
            return Err(StoreError::AlreadyExists);
        }
        let hash = hash_password(password);
        self.user_insert(username, hash)
    }

    /// The stored hash of a registered username.
    pub fn password_hash(&self, username: &str) -> (r: Option<String>)
        ensures
            match r {
                Some(h) => self@.users.contains(UserView { name: username@, hash: h@ }),
                None => !self@.registered(username@),
            },
    {
        match self.find_user(username) {
            Some(i) => {
                assert(self@.users[i as int] == (UserView {
                    name: username@,
                    hash: self.users[i as int].passwd@,
                }));
                Some(self.users[i].passwd.clone())
            },
            None => None,
        }
    }

    /// Whether a password with this hash authenticates the username: always
    /// in anonymous mode, else when the username is registered with it.
    pub fn hash_matches(&self, username: &str, hash: &str) -> (b: bool)
        requires
            self.wf(),
        ensures
            b == self@.user_auth(username@, hash@),
    {
        if self.noauth {
            return true;
        }
        match self.find_user(username) {
            Some(i) => {
                let b = same_text(self.users[i].passwd.as_str(), hash);
                proof {
                    let want = UserView { name: username@, hash: hash@ };
                    if b {
                        assert(self@.users[i as int] == want);
                    } else if self@.users.contains(want) {
                        let k = choose|k: int| 0 <= k < self@.users.len() && self@.users[k] == want;
                        assert(k == i);
                    }
                }
                b
            },
            None => {
                proof {
                    let want = UserView { name: username@, hash: hash@ };
                    if self@.users.contains(want) {
                        let k = choose|k: int| 0 <= k < self@.users.len() && self@.users[k] == want;
                        assert(self@.users[k].name == username@);
                    }
                }
                false
            },
        }
    }

    /// Whether the password authenticates the username. Never a failure: an
    /// unknown username and a wrong password both give `false`.
    pub fn user_auth(&self, username: &str, password: &str) -> (b: bool)
        requires
            self.wf(),
        ensures
            b == self@.user_auth(username@, sha256_hex(password@)),
    {
        if self.noauth {
            return true;
        }
        let hash = hash_password(password);
        self.hash_matches(username, hash.as_str())
    }

    /// The place of what is kept under a key.
    fn find_slot(&self, owner: &str, device_id: &str, document: &str) -> (r: Option<usize>)
        ensures
            match r {
                Some(i) => self@.keyed(i as int, owner@, device_id@, document@),
                None => forall|j: int| !self@.keyed(j, owner@, device_id@, document@),
            },
    {
        let n: usize = self.records.len();
        let mut i: usize = 0;
        while i < n
            invariant
                n == self.records.len(),
                n == self@.records.len(),
                i <= n,
                forall|j: int| 0 <= j < i ==> !self@.keyed(j, owner@, device_id@, document@),
            decreases n - i,
        {
            if same_text(self.records[i].owner.as_str(), owner) && same_text(
                self.records[i].device_id.as_str(),
                device_id,
            ) && same_text(self.records[i].document.as_str(), document) {
                return Some(i);
            }
            i += 1;
        }
        None
    }

    /// Puts under a key what storage holds there: a record, or `None` where
    /// the content cannot be read as a record.
    ///
    /// Refused with `NotFound` where the identity does not exist. Otherwise
    /// the content replaces what was kept for the same identity, device and
    /// document, or is added where there was nothing; no other key changes.
    pub fn document_restore(
        &mut self,
        username: &str,
        device_id: &str,
        document: &str,
        content: Option<DocumentData>,
    ) -> (r: Result<(), StoreError>)
        requires
            old(self).wf(),
        ensures
            final(self).wf(),
            match r {
                Ok(_) => {
                    &&& old(self)@.user_exists(username@)
                    &&& final(self)@ == old(self)@.put(
                        RecordView {
                            owner: old(self)@.identity(username@),
                            device_id: device_id@,
                            document: document@,
                            data: record_view(content),
                        },
                    )
                },
                Err(e) => {
                    &&& !old(self)@.user_exists(username@)
                    &&& e == StoreError::NotFound
                    &&& final(self)@ == old(self)@
                },
            },
    {
        if !self.user_exists(username) {
            return Err(StoreError::NotFound);
        }
        let owner: &str = if self.noauth {
            "noauth"
        } else {
            username
        };
        let ghost before = self@;
        let ghost rec = RecordView {
            owner: owner@,
            device_id: device_id@,
            document: document@,
            data: record_view(content),
        };
        let slot = self.find_slot(owner, device_id, document);
        let record = Record {
            owner: owner.to_owned(),
            device_id: device_id.to_owned(),
            document: document.to_owned(),
            data: content,
        };
        match slot {
            Some(i) => {
                self.records.set(i, record);
                proof {
                    let c = choose|c: int| before.keyed(c, rec.owner, rec.device_id, rec.document);
                    lemma_keyed_unique(before, c, i as int, rec.owner, rec.device_id, rec.document);
                    assert(self@.records =~= before.records.update(i as int, rec));
                    assert(self@.users =~= before.users);
                    lemma_put_wf(before, rec);
                }
            },
            None => {
                self.records.push(record);
                proof {
                    assert(self@.records =~= before.records.push(rec));
                    assert(self@.users =~= before.users);
                    lemma_put_wf(before, rec);
                }
            },
        }
        Ok(())
    }

    /// Stores a device's progress under the time `time`.
    ///
    /// Refused with `NotFound` where the identity does not exist. Otherwise
    /// the record replaces what was kept for the same identity, device and
    /// document, or is added where there was nothing; no other key changes.
    /// The answer echoes the assigned time and the document.
    pub fn document_update(&mut self, username: &str, data: &ProgressPutReq, time: u64) -> (r:
        Result<ProgressPutRes, StoreError>)
        requires
            old(self).wf(),
        ensures
            final(self).wf(),
            match r {
                Ok(res) => {
                    &&& old(self)@.user_exists(username@)
                    &&& res.timestamp == time
                    &&& res.document@ == data.document@
                    &&& final(self)@ == old(self)@.put(
                        pushed(old(self)@.identity(username@), data@, time),
                    )
                },
                Err(e) => {
                    &&& !old(self)@.user_exists(username@)
                    &&& e == StoreError::NotFound
                    &&& final(self)@ == old(self)@
                },
            },
    {
        let record = DocumentData::stamp(data, time);
        match self.document_restore(
            username,
            data.device_id.as_str(),
            data.document.as_str(),
            Some(record),
        ) {
            Ok(_) => Ok(ProgressPutRes { timestamp: time, document: data.document.clone() }),
            Err(e) => Err(e),
        }
    }

    /// The current progress of a document for an identity.
    ///
    /// Refused with `NotFound` where the identity does not exist. Otherwise
    /// the answer is the record with the greatest timestamp among all of the
    /// identity's devices, or `None` where no device has pushed the document.
    /// Content that cannot be read as a record is passed over.
    pub fn document_read(&self, username: &str, document: &str) -> (r: Result<
        Option<DocumentData>,
        StoreError,
    >)
        ensures
            match r {
                Ok(Some(d)) => self@.user_exists(username@) && self@.latest(
                    self@.identity(username@),
                    document@,
                ) == Some(d@),
                Ok(None) => self@.user_exists(username@) && self@.latest(
                    self@.identity(username@),
                    document@,
                ) is None,
                Err(e) => !self@.user_exists(username@) && e == StoreError::NotFound,
            },
    {
        if !self.user_exists(username) {
            return Err(StoreError::NotFound);
        }
        let owner: &str = if self.noauth {
            "noauth"
        } else {
            username
        };
        let n: usize = self.records.len();
        let mut best: Option<usize> = None;
        let mut timestamp: u64 = 0;
        let mut i: usize = 0;
        while i < n
            invariant
                n == self.records.len(),
                n == self@.records.len(),
                i <= n,
                match best {
                    Some(b) => {
                        &&& b < i
                        &&& self@.competes(b as int, owner@, document@)
                        &&& timestamp == self@.records[b as int].time()
                        &&& forall|j: int|
                            0 <= j < i && #[trigger] self@.competes(j, owner@, document@) ==> {
                                &&& self@.records[j].time() <= timestamp
                                &&& j < b ==> self@.records[j].time() < timestamp
                            }
                    },
                    None => forall|j: int| 0 <= j < i ==> !self@.competes(j, owner@, document@),
                },
            decreases n - i,
        {
            if same_text(self.records[i].owner.as_str(), owner) && same_text(
                self.records[i].document.as_str(),
                document,
            ) {
                if let Some(current) = &self.records[i].data {
                    if best.is_none() || current.timestamp > timestamp {
                        timestamp = current.timestamp;
                        best = Some(i);
                    }
                }
            }
            i += 1;
        }
        match best {
            Some(b) => {
                proof {
                    assert(self@.wins(b as int, owner@, document@));
                    let c = choose|c: int| self@.wins(c, owner@, document@);
                    assert(self@.competes(c, owner@, document@));
                    assert(c == b);
                }
                match &self.records[b].data {
                    Some(d) => Ok(Some(d.clone())),
                    None => Ok(None),
                }
            },
            None => {
                proof {
                    assert forall|c: int| !self@.wins(c, owner@, document@) by {
                        if self@.wins(c, owner@, document@) {
                            assert(self@.competes(c, owner@, document@));
                        }
                    }
                }
                Ok(None)
            },
        }
    }
}

} // verus!

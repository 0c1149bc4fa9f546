//! User records and the repository that keeps them, one record for each
//! subject identifier.

use vstd::prelude::*;

verus! {

/// What is known of a user when the record is created.
#[derive(Debug)]
pub struct UserData {
    /// The subject identifier, which is the record's key.
    pub username: String,
    pub email: String,
    pub first_name: String,
    pub last_name: String,
}

/// A stored user: the data, and the bookkeeping of its writes.
#[derive(Debug)]
pub struct UserRecord {
    pub data: UserData,
    /// 1 when created, one more with every later write.
    pub data_version: u64,
    /// When the record was last written, in seconds since the epoch.
    pub last_write: u64,
}

/// A record as the store hands it out: attributes may be missing or of the
/// wrong kind, in which case they are `None` here.
#[derive(Debug)]
pub struct StoredItem {
    pub username: Option<String>,
    pub email: Option<String>,
    pub first_name: Option<String>,
    pub last_name: Option<String>,
    pub data_version: Option<u64>,
    pub last_write: Option<u64>,
}

/// Why the repository could not do what was asked.
#[derive(Clone, Copy, Debug, PartialEq, Eq, Structural)]
pub enum RepoError {
    /// There is a record for that identifier already.
    AlreadyExists,
    /// A stored record lacks an attribute or holds one of the wrong kind.
    Malformed,
    /// The store could not be reached or refused the call.
    Unavailable,
}

/// The mathematical content of a `UserData`.
pub struct UserDataView {
    pub username: Seq<char>,
    pub email: Seq<char>,
    pub first_name: Seq<char>,
    pub last_name: Seq<char>,
}

/// The mathematical content of a `UserRecord`.
pub struct UserRecordView {
    pub data: UserDataView,
    pub data_version: u64,
    pub last_write: u64,
}

impl View for UserData {
    type V = UserDataView;

    open spec fn view(&self) -> UserDataView {
        UserDataView {
            username: self.username@,
            email: self.email@,
            first_name: self.first_name@,
            last_name: self.last_name@,
        }
    }
}

impl View for UserRecord {
    type V = UserRecordView;

    open spec fn view(&self) -> UserRecordView {
        UserRecordView {
            data: self.data@,
            data_version: self.data_version,
            last_write: self.last_write,
        }
    }
}

impl Clone for UserData {
    fn clone(&self) -> (r: Self)
        ensures
            r@ == self@,
    {
        UserData {
            username: self.username.clone(),
            email: self.email.clone(),
            first_name: self.first_name.clone(),
            last_name: self.last_name.clone(),
        }
    }
}

impl Clone for UserRecord {
    fn clone(&self) -> (r: Self)
        ensures
            r@ == self@,
    {
        UserRecord {
            data: self.data.clone(),
            data_version: self.data_version,
            last_write: self.last_write,
        }
    }
}

/// The record that creating a user at time `now` gives: version 1, written
/// at `now`.
pub open spec fn created(data: UserDataView, now: u64) -> UserRecordView {
    UserRecordView { data, data_version: 1, last_write: now }
}

/// The record that a write at time `now` turns a record into: the version is
/// one higher, and the time of writing is `now`.
pub open spec fn rewritten(record: UserRecordView, data: UserDataView, now: u64) -> UserRecordView
    recommends
        record.data_version < u64::MAX,
{
    UserRecordView { data, data_version: (record.data_version + 1) as u64, last_write: now }
}

/// The record that a stored item stands for, if it has every attribute.
pub open spec fn item_record(item: StoredItem) -> Option<UserRecordView> {
    if item.username.is_some() && item.email.is_some() && item.first_name.is_some()
        && item.last_name.is_some() && item.data_version.is_some()
        && item.last_write.is_some() {
        Some(
            UserRecordView {
                data: UserDataView {
                    username: item.username.unwrap()@,
                    email: item.email.unwrap()@,
                    first_name: item.first_name.unwrap()@,
                    last_name: item.last_name.unwrap()@,
                },
                data_version: item.data_version.unwrap(),
                last_write: item.last_write.unwrap(),
            },
        )
    } else {
        None
    }
}

/// What a list of records holds under each key. Where two records share a
/// key, the earlier one counts.
pub open spec fn records_map(records: Seq<UserRecord>) -> Map<Seq<char>, UserRecordView>
    decreases records.len(),
{
    if records.len() == 0 {
        Map::empty()
    } else {
        let before = records_map(records.drop_last());
        let last = records.last();
        if before.dom().contains(last.data.username@) {
            before
        } else {
            before.insert(last.data.username@, last@)
        }
    }
}

/// A key that no record has is not in the map.
pub proof fn lemma_absent_key(records: Seq<UserRecord>, key: Seq<char>)
    requires
        forall|j: int| 0 <= j < records.len() ==> records[j].data.username@ != key,
    ensures
        !records_map(records).dom().contains(key),
    decreases records.len(),
{
    if records.len() > 0 {
        lemma_absent_key(records.drop_last(), key);
    }
}

/// A key that is not in the map is the key of no record.
pub proof fn lemma_present_key(records: Seq<UserRecord>, key: Seq<char>)
    requires
        !records_map(records).dom().contains(key),
    ensures
        forall|j: int| 0 <= j < records.len() ==> records[j].data.username@ != key,
    decreases records.len(),
{
    if records.len() > 0 {
        let shorter = records.drop_last();
        lemma_present_key(shorter, key);
        assert forall|j: int| 0 <= j < records.len() implies records[j].data.username@
            != key by {
            if j < shorter.len() {
                assert(shorter[j] == records[j]);
            }
        }
    }
}

/// The first record with a key is what the map holds under it.
pub proof fn lemma_first_match(records: Seq<UserRecord>, key: Seq<char>, i: int)
    requires
        0 <= i < records.len(),
        records[i].data.username@ == key,
        forall|j: int| 0 <= j < i ==> records[j].data.username@ != key,
    ensures
        records_map(records).dom().contains(key),
        records_map(records)[key] == records[i]@,
    decreases records.len(),
{
    let shorter = records.drop_last();
    if i == records.len() - 1 {
        lemma_absent_key(shorter, key);
    } else {
        lemma_first_match(shorter, key, i);
    }
}

/// Whether no two records of a list share a key.
pub open spec fn distinct_keys(records: Seq<UserRecord>) -> bool {
    forall|i: int, j: int|
        0 <= i < j < records.len() ==> records[i].data.username@ != records[j].data.username@
}

/// A list in which no two records share a key holds as many keys as records.
pub proof fn lemma_records_count(records: Seq<UserRecord>)
    requires
        distinct_keys(records),
    ensures
        records_map(records).dom().finite(),
        records_map(records).dom().len() == records.len(),
    decreases records.len(),
{
    if records.len() > 0 {
        let shorter = records.drop_last();
        lemma_records_count(shorter);
        lemma_absent_key(shorter, records.last().data.username@);
        assert(records_map(records).dom() =~= records_map(shorter).dom().insert(
            records.last().data.username@,
        ));
    }
}

impl UserData {
    /// Puts the four fields together.
    pub fn new(username: String, email: String, first_name: String, last_name: String) -> (r:
        Self)
        ensures
            r@ == (UserDataView {
                username: username@,
                email: email@,
                first_name: first_name@,
                last_name: last_name@,
            }),
    {
        UserData { username, email, first_name, last_name }
    }
}

impl UserRecord {
    /// The record of a user created at time `now`.
    pub fn create(data: UserData, now: u64) -> (r: Self)
        ensures
            r@ == created(data@, now),
    {
        UserRecord { data, data_version: 1, last_write: now }
    }

    /// The record after a write of new data at time `now`. The version is
    /// strictly higher than before. `None` where the version cannot grow.
    pub fn rewrite(&self, data: UserData, now: u64) -> (r: Option<Self>)
        ensures
            match r {
                Some(next) => self.data_version < u64::MAX && next@ == rewritten(
                    self@,
                    data@,
                    now,
                ) && next.data_version > self.data_version,
                None => self.data_version == u64::MAX,
            },
    {
        if self.data_version == u64::MAX {
            None
        } else {
            Some(UserRecord { data, data_version: self.data_version + 1, last_write: now })
        }
    }

    /// Reads a stored item as a record. An item that lacks an attribute is
    /// `Malformed`.
    pub fn from_item(item: StoredItem) -> (r: Result<Self, RepoError>)
        ensures
            match r {
                Ok(record) => item_record(item) == Some(record@),
                Err(e) => e == RepoError::Malformed && item_record(item).is_none(),
            },
    {
        match (
            item.username,
            item.email,
            item.first_name,
            item.last_name,
            item.data_version,
            item.last_write,
        ) {
            (
                Some(username),
                Some(email),
                Some(first_name),
                Some(last_name),
                Some(data_version),
                Some(last_write),
            ) => Ok(
                UserRecord {
                    data: UserData { username, email, first_name, last_name },
                    data_version,
                    last_write,
                },
            ),
            _ => Err(RepoError::Malformed),
        }
    }
}

/// A repository held in memory. Its view is the map from subject identifier
/// to record.
pub struct UserRepo {
    records: Vec<UserRecord>,
}

impl View for UserRepo {
    type V = Map<Seq<char>, UserRecordView>;

    closed spec fn view(&self) -> Map<Seq<char>, UserRecordView> {
        records_map(self.records@)
    }
}

impl UserRepo {
    /// Whether the repository keeps one record at most for each identifier.
    /// Every repository made by `new` and changed by `insert` does.
    pub closed spec fn wf(&self) -> bool {
        distinct_keys(self.records@)
    }

    /// A repository without records.
    pub fn new() -> (r: Self)
        ensures
            r.wf(),
            r@ == Map::<Seq<char>, UserRecordView>::empty(),
    {
        UserRepo { records: Vec::new() }
    }

    /// The record kept for a subject identifier, or `None` where there is
    /// none. The repository is left as it is.
    pub fn read(&self, sub: &str) -> (r: Option<UserRecord>)
        ensures
            match r {
                Some(record) => self@.dom().contains(sub@) && record@ == self@[sub@],
                None => !self@.dom().contains(sub@),
            },
    {
        let key: String = sub.to_owned();
        let mut i: usize = 0;
        while i < self.records.len()
            invariant
                i <= self.records@.len(),
                key@ == sub@,
                forall|j: int| 0 <= j < i ==> self.records@[j].data.username@ != sub@,
            decreases self.records@.len() - i,
        {
            if self.records[i].data.username == key {
                proof {
                    lemma_first_match(self.records@, sub@, i as int);
                }
                return Some(self.records[i].clone());
            }
            i += 1;
        }
        proof {
            lemma_absent_key(self.records@, sub@);
        }
        None
    }

    /// Creates the record of a new user, written at time `now`, unless one
    /// exists for that identifier: then nothing changes and the call fails
    /// with `AlreadyExists`.
    pub fn insert(&mut self, data: UserData, now: u64) -> (r: Result<(), RepoError>)
        ensures
            old(self).wf() ==> final(self).wf(),
            match r {
                Ok(_) => !old(self)@.dom().contains(data.username@) && final(self)@ == old(
                    self,
                )@.insert(data.username@, created(data@, now)),
                Err(e) => e == RepoError::AlreadyExists && old(self)@.dom().contains(
                    data.username@,
                ) && final(self)@ == old(self)@,
            },
    {
        if self.read(data.username.as_str()).is_some() {
            return Err(RepoError::AlreadyExists);
        }
        let ghost before = self.records@;
        let record = UserRecord::create(data, now);
        self.records.push(record);
        proof {
            assert(self.records@.drop_last() =~= before);
            assert(self.records@.last() == record);
            lemma_present_key(before, data.username@);
        }
        Ok(())
    }

    /// How many records the repository keeps.
    pub fn len(&self) -> (r: usize)
        requires
            self.wf(),
        ensures
            self@.dom().finite(),
            r == self@.dom().len(),
    {
        proof {
            lemma_records_count(self.records@);
        }
        self.records.len()
    }
}

/// A record that was created is read back as it was put in, with version 1
/// and the time of its creation.
pub proof fn lemma_read_after_insert(
    records: Map<Seq<char>, UserRecordView>,
    data: UserDataView,
    now: u64,
)
    ensures
        records.insert(data.username, created(data, now))[data.username].data == data,
        records.insert(data.username, created(data, now))[data.username].data_version == 1,
        records.insert(data.username, created(data, now))[data.username].last_write == now,
        records.insert(data.username, created(data, now))[data.username].last_write >= 0,
{
}

} // verus!

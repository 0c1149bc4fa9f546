//! The profile service: from the caller's identity to the public part of the
//! caller's record, and the seeding of a well-known user for local runs.

use vstd::prelude::*;
use crate::error::ServiceError;
use crate::claims::ClaimSet;
use crate::identity::{extract_sub, sub_of_request, IdentityExtractor, RunMode};
use crate::users::{
    created, RepoError, UserData, UserDataView, UserRecord, UserRecordView, UserRepo,
};

verus! {

/// What of a user record is shown to the caller: the two names, nothing else.
#[derive(Debug)]
pub struct UserProfile {
    pub first_name: String,
    pub last_name: String,
}

/// The mathematical content of a `UserProfile`.
pub struct UserProfileView {
    pub first_name: Seq<char>,
    pub last_name: Seq<char>,
}

impl View for UserProfile {
    type V = UserProfileView;

    open spec fn view(&self) -> UserProfileView {
        UserProfileView { first_name: self.first_name@, last_name: self.last_name@ }
    }
}

/// The public part of a record.
pub open spec fn projected(record: UserRecordView) -> UserProfileView {
    UserProfileView { first_name: record.data.first_name, last_name: record.data.last_name }
}

/// What a request is answered with, given what reading the store gave.
pub open spec fn profile_of_read(
    read: Result<Option<UserRecord>, RepoError>,
) -> Result<UserProfileView, ServiceError> {
    match read {
        Err(_) => Err(ServiceError::RepositoryFailure),
        Ok(None) => Err(ServiceError::NotFound),
        Ok(Some(record)) => Ok(projected(record@)),
    }
}

/// What a request is answered with, given the subject it carries, if any,
/// and what the repository holds.
pub open spec fn answer(
    sub: Option<Seq<char>>,
    records: Map<Seq<char>, UserRecordView>,
) -> Result<UserProfileView, ServiceError> {
    match sub {
        None => Err(ServiceError::IdentityMissing),
        Some(key) => if records.dom().contains(key) {
            Ok(projected(records[key]))
        } else {
            Err(ServiceError::NotFound)
        },
    }
}

/// Whether a result is the given answer.
pub open spec fn is_answer(
    r: Result<UserProfile, ServiceError>,
    expected: Result<UserProfileView, ServiceError>,
) -> bool {
    match r {
        Ok(profile) => expected == Ok::<UserProfileView, ServiceError>(profile@),
        Err(e) => expected == Err::<UserProfileView, ServiceError>(e),
    }
}

/// The subject identifier of the user that local runs are seeded with.
pub open spec fn test_sub() -> Seq<char> {
    "00000000-0000-0000-0000-000000000000"@
}

/// The user that local runs are seeded with.
pub open spec fn test_user() -> UserDataView {
    UserDataView {
        username: test_sub(),
        email: "test@wulf.technology"@,
        first_name: "Test"@,
        last_name: "User"@,
    }
}

/// What seeding at time `now` makes of a repository: in production nothing
/// changes; elsewhere the test user is created unless a record for it exists.
pub open spec fn seeded(
    records: Map<Seq<char>, UserRecordView>,
    mode: RunMode,
    now: u64,
) -> Map<Seq<char>, UserRecordView> {
    if mode == RunMode::Production || records.dom().contains(test_sub()) {
        records
    } else {
        records.insert(test_sub(), created(test_user(), now))
    }
}

/// The public part of a record: first and last name.
pub fn project(record: UserRecord) -> (r: UserProfile)
    ensures
        r@ == projected(record@),
{
    UserProfile { first_name: record.data.first_name, last_name: record.data.last_name }
}

/// Turns what reading the store gave into the answer: a failure of the store
/// is `RepositoryFailure`, no record is `NotFound`, a record is projected.
pub fn profile_from_read(read: Result<Option<UserRecord>, RepoError>) -> (r: Result<
    UserProfile,
    ServiceError,
>)
    ensures
        is_answer(r, profile_of_read(read)),
{
    match read {
        Err(_) => Err(ServiceError::RepositoryFailure),
        Ok(None) => Err(ServiceError::NotFound),
        Ok(Some(record)) => Ok(project(record)),
    }
}

/// Answers one request against a repository: extracts the subject, reads its
/// record once, and projects it. Without a subject the repository is not
/// read.
pub fn function_handler(
    extractor: IdentityExtractor,
    authorization: Option<&str>,
    context: Option<&ClaimSet>,
    repo: &UserRepo,
) -> (r: Result<UserProfile, ServiceError>)
    ensures
        is_answer(r, answer(sub_of_request(extractor, authorization, context), repo@)),
{
    match extract_sub(extractor, authorization, context) {
        Err(e) => Err(e),
        Ok(sub) => profile_from_read(Ok(repo.read(sub.as_str()))),
    }
}

/// The user that local runs are seeded with.
pub fn test_user_data() -> (r: UserData)
    ensures
        r@ == test_user(),
{
    UserData::new(
        "00000000-0000-0000-0000-000000000000".to_owned(),
        "test@wulf.technology".to_owned(),
        "Test".to_owned(),
        "User".to_owned(),
    )
}

/// Decides, from what reading the test user's record gave, whether seeding
/// has to insert it, and what. The test user is inserted only outside
/// production and only where the read found no record: a read that failed
/// says nothing of the record, and nothing is inserted after it.
pub fn seed_decision(mode: RunMode, read: &Result<Option<UserRecord>, RepoError>) -> (r: Option<
    UserData,
>)
    ensures
        r.is_some() <==> (mode != RunMode::Production && read matches Ok(None)),
        r matches Some(data) ==> data@ == test_user(),
{
    match mode {
        RunMode::Production => None,
        RunMode::Local => match read {
            Ok(None) => Some(test_user_data()),
            _ => None,
        },
    }
}

/// Makes sure, outside production, that the repository holds the test user:
/// reads first, and inserts only where the read found nothing.
pub fn ensure_test_user_profile(repo: &mut UserRepo, mode: RunMode, now: u64)
    ensures
        final(repo)@ == seeded(old(repo)@, mode, now),
        old(repo).wf() ==> final(repo).wf(),
{
    match mode {
        RunMode::Production => {},
        RunMode::Local => {
            let read: Result<Option<UserRecord>, RepoError> = Ok(
                repo.read("00000000-0000-0000-0000-000000000000"),
            );
            match seed_decision(mode, &read) {
                None => {},
                Some(data) => {
                    let _ = repo.insert(data, now);
                },
            }
        },
    }
}

/// Seeding twice is seeding once: the second seeding finds the record and
/// changes nothing, so there is one record for the test user, the first.
pub proof fn lemma_seeding_idempotent(
    records: Map<Seq<char>, UserRecordView>,
    mode: RunMode,
    first: u64,
    second: u64,
)
    ensures
        seeded(seeded(records, mode, first), mode, second) == seeded(records, mode, first),
        mode != RunMode::Production ==> seeded(records, mode, first).dom().contains(test_sub()),
        mode == RunMode::Production ==> seeded(records, mode, first) == records,
{
}

/// A subject without a record is answered with `NotFound`, never with a
/// failure of the repository.
pub proof fn lemma_absent_is_not_found(records: Map<Seq<char>, UserRecordView>, sub: Seq<char>)
    requires
        !records.dom().contains(sub),
    ensures
        answer(Some(sub), records) == Err::<UserProfileView, ServiceError>(
            ServiceError::NotFound,
        ),
        profile_of_read(Ok(None)) == Err::<UserProfileView, ServiceError>(
            ServiceError::NotFound,
        ),
{
}

/// The name of the table to use: the configured one, or `users` outside
/// production where none is configured. Production without a configured
/// name is no input: startup has to stop before.
pub fn get_table_name(mode: RunMode, configured: Option<String>) -> (r: String)
    requires
        mode == RunMode::Production ==> configured.is_some(),
    ensures
        match configured {
            Some(name) => r == name,
            None => r@ == "users"@,
        },
{
    match configured {
        Some(name) => name,
        None => "users".to_owned(),
    }
}

} // verus!

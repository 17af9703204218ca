//! Opening a user's stored Immich API key, and the small views built from
//! Immich data: the owner's person ids and the indexing progress.

use vstd::prelude::*;
use vstd::utf8::{encode_utf8, valid_utf8};

use crate::crypto::{decrypt_outcome, MasterKey};
use crate::validator::ResolverError;

verus! {

broadcast use vstd::std_specs::vec::group_vec_axioms;

/// The stored row of a user's Immich API key.
#[derive(Debug, Clone, PartialEq, Eq)]
pub struct StoredKeyRow {
    pub base_url: String,
    pub ciphertext: Vec<u8>,
    pub nonce: Vec<u8>,
    /// The Immich user the key belongs to; set by the first successful
    /// check of the key.
    pub immich_user_id: Option<String>,
}

/// A usable Immich connection for one user.
#[derive(Debug, Clone, PartialEq, Eq)]
pub struct ResolvedKey {
    pub base_url: String,
    pub api_key: String,
    pub immich_user_id: String,
}

/// The text whose UTF-8 encoding is `bytes`, with `String::from_utf8`.
///
/// The contract states what the standard library documents: the conversion
/// succeeds exactly on valid UTF-8, and the text is then the one those bytes
/// encode.
#[verifier::external_body]
fn utf8_text(bytes: Vec<u8>) -> (r: Option<String>)
    ensures
        r is Some <==> valid_utf8(bytes@),
        r matches Some(s) ==> encode_utf8(s@) == bytes@,
{
    String::from_utf8(bytes).ok()
}

/// Opens a stored key: no row, or a row whose Immich user is unknown, means
/// the user has not onboarded; a ciphertext that does not decrypt under the
/// master key, or does not decrypt to UTF-8 text, is a decryption failure.
pub fn open_stored_key(master: &MasterKey, row: Option<StoredKeyRow>) -> (r: Result<ResolvedKey, ResolverError>)
    ensures
        match row {
            None => r == Err::<ResolvedKey, ResolverError>(ResolverError::NoApiKey),
            Some(row) => match row.immich_user_id {
                None => r == Err::<ResolvedKey, ResolverError>(ResolverError::NoApiKey),
                Some(uid) => match decrypt_outcome(master@, row.nonce@, row.ciphertext@) {
                    None => r == Err::<ResolvedKey, ResolverError>(ResolverError::DecryptFailed),
                    Some(p) => if valid_utf8(p) {
                        r matches Ok(k) && k.base_url == row.base_url && k.immich_user_id == uid
                            && encode_utf8(k.api_key@) == p
                    } else {
                        r == Err::<ResolvedKey, ResolverError>(ResolverError::DecryptFailed)
                    },
                },
            },
        },
{
    let row = match row {
        None => {
            return Err(ResolverError::NoApiKey);
        },
        Some(row) => row,
    };
    let immich_user_id = match row.immich_user_id {
        None => {
            return Err(ResolverError::NoApiKey);
        },
        Some(uid) => uid,
    };
    let plaintext = match master.decrypt(row.nonce.as_slice(), row.ciphertext.as_slice()) {
        Ok(p) => p,
        Err(_) => {
            return Err(ResolverError::DecryptFailed);
        },
    };
    let api_key = match utf8_text(plaintext) {
        Some(s) => s,
        None => {
            return Err(ResolverError::DecryptFailed);
        },
    };
    Ok(ResolvedKey { base_url: row.base_url, api_key, immich_user_id })
}

/// One entry of the user's identifiable people in Immich.
#[derive(Debug, Clone, PartialEq, Eq)]
pub struct ImmichPerson {
    pub id: String,
    pub name: String,
    /// Server-relative path of the face thumbnail, when Immich gives one.
    pub thumbnail_path: Option<String>,
}

/// The Immich user behind an API key.
#[derive(Debug, Clone, PartialEq, Eq)]
pub struct ImmichUserInfo {
    pub id: String,
    pub email: String,
}

/// The ids of the owner's people, in order: the person ids a rule may name.
pub fn person_ids(people: &Vec<ImmichPerson>) -> (ids: Vec<String>)
    ensures
        ids@.len() == people@.len(),
        forall|i: int| 0 <= i < people@.len() ==> #[trigger] ids@[i] == people@[i].id,
{
    let mut ids: Vec<String> = Vec::new();
    let mut i: usize = 0;
    while i < people.len()
        invariant
            i <= people@.len(),
            ids@.len() == i,
            forall|j: int| 0 <= j < i ==> #[trigger] ids@[j] == people@[j].id,
        decreases people@.len() - i,
    {
        ids.push(people[i].id.clone());
        i += 1;
    }
    ids
}

/// Indexing progress of one user.
#[derive(Debug, Clone, Copy, PartialEq, Eq)]
pub struct IndexStatus {
    pub indexed: i64,
    pub last_swept_at: Option<i64>,
    pub library_total: Option<i64>,
    /// The index is still catching up with the library.
    pub sweeping: bool,
}

/// The progress report: the index is sweeping while it holds fewer assets
/// than the library's total (unknown total: not sweeping).
pub fn index_status(indexed: i64, last_swept_at: Option<i64>, library_total: Option<i64>) -> (s: IndexStatus)
    ensures
        s.indexed == indexed,
        s.last_swept_at == last_swept_at,
        s.library_total == library_total,
        s.sweeping == (library_total matches Some(m) && indexed < m),
{
    let sweeping = match library_total {
        Some(m) => indexed < m,
        None => false,
    };
    IndexStatus { indexed, last_swept_at, library_total, sweeping }
}

/// Body of `POST /api/v1/me/immich-key`.
#[derive(Debug, Clone, PartialEq, Eq)]
pub struct PutKeyRequest {
    pub base_url: String,
    pub api_key: String,
}

/// What is known of a stored key; never the key itself.
#[derive(Debug, Clone, PartialEq, Eq)]
pub struct KeyInfoResponse {
    pub base_url: String,
    pub immich_user_id: Option<String>,
    pub last_validated_at: i64,
}

/// A refused request on the stored key.
#[derive(Debug, Clone, Copy, PartialEq, Eq)]
pub enum KeyInfoError {
    /// No key has been stored yet (404 `no_immich_key`).
    NoKey,
}

/// The answer of `GET /api/v1/me/immich-key` for the stored row, if any.
pub fn key_info_outcome(row: Option<KeyInfoResponse>) -> (r: Result<KeyInfoResponse, KeyInfoError>)
    ensures
        match row {
            Some(info) => r == Ok::<KeyInfoResponse, KeyInfoError>(info),
            None => r == Err::<KeyInfoResponse, KeyInfoError>(KeyInfoError::NoKey),
        },
{
    match row {
        Some(info) => Ok(info),
        None => Err(KeyInfoError::NoKey),
    }
}

/// The answer to a key that was just checked against Immich and stored at
/// `now`: the normalised base URL and the Immich user it belongs to.
pub fn stored_key_info(base_url: String, user: ImmichUserInfo, now: i64) -> (r: KeyInfoResponse)
    ensures
        r.base_url == base_url,
        r.immich_user_id == Some(user.id),
        r.last_validated_at == now,
{
    KeyInfoResponse { base_url, immich_user_id: Some(user.id), last_validated_at: now }
}

/// A person as offered to the rule builder; the face thumbnail is fetched
/// through this server so the Immich key never reaches the browser.
#[derive(Debug, Clone, PartialEq, Eq)]
pub struct MePerson {
    pub id: String,
    pub name: String,
    pub thumbnail_url: String,
}

/// The proxy path of person `id`'s thumbnail.
pub open spec fn thumbnail_path_of(id: Seq<char>) -> Seq<char> {
    "/api/v1/me/people/"@ + id + "/thumbnail"@
}

/// The rule builder's view of an Immich person.
pub fn me_person(p: ImmichPerson) -> (r: MePerson)
    ensures
        r.id == p.id,
        r.name == p.name,
        r.thumbnail_url@ == thumbnail_path_of(p.id@),
{
    let mut url = String::from_str("/api/v1/me/people/");
    url.append(p.id.as_str());
    url.append("/thumbnail");
    MePerson { id: p.id, name: p.name, thumbnail_url: url }
}

} // verus!

//! The decisions around the Immich REST API: album writability, the asset
//! kind discriminator, how a response status is read, and how the paged
//! endpoints are walked. The HTTP exchanges themselves happen elsewhere; they
//! hand the status codes and page markers they receive to these functions.
//!
//! Immich quirks:
//! * a missing album, or one the caller may not read, is answered with HTTP
//!   400 (or 404), which reads as "no such album";
//! * `/api/people` ignores the page size and is walked page by page until
//!   `hasNextPage` is false, at most [`MAX_PEOPLE_PAGES`] pages;
//! * `/api/search/metadata` names the next page as a string, `nextPage`, or
//!   null at the end; the walk stops after a page budget of at most
//!   [`MAX_SEARCH_PAGES`].

use vstd::prelude::*;

use crate::schema::FloatBits;
use crate::text::{lemma_parse_unsigned_bounds, parse_unsigned, parse_unsigned_at_most, str_eq};

verus! {

/// Hard ceiling on the number of `/api/people` pages walked.
pub const MAX_PEOPLE_PAGES: u32 = 200;

/// Hard ceiling on the number of `/api/search/metadata` pages walked in one
/// listing.
pub const MAX_SEARCH_PAGES: u32 = 200;

/// Album role with write access (`"viewer"` is read-only).
pub const ALBUM_ROLE_EDITOR: &'static str = "editor";

/// An `albumUsers[]` entry, flattened to `(user_id, role)`.
#[derive(Debug, Clone, PartialEq)]
pub struct AlbumUser {
    pub user_id: String,
    pub role: String,
}

/// Minimal album shape: enough to decide writability.
#[derive(Debug, Clone, PartialEq)]
pub struct ImmichAlbum {
    pub id: String,
    pub owner_id: String,
    pub album_users: Vec<AlbumUser>,
}

/// Summary of one album for the target-album picker.
#[derive(Debug, Clone, PartialEq)]
pub struct ImmichAlbumSummary {
    pub id: String,
    pub name: String,
    pub asset_count: u32,
    pub is_writable: bool,
}

/// An album as offered to the rule builder's target picker.
#[derive(Debug, Clone, PartialEq, Eq)]
pub struct MeAlbum {
    pub id: String,
    pub name: String,
    pub asset_count: u32,
    pub is_writable: bool,
}

/// The picker's view of an album summary: every field unchanged.
pub fn me_album(a: ImmichAlbumSummary) -> (r: MeAlbum)
    ensures
        r.id == a.id,
        r.name == a.name,
        r.asset_count == a.asset_count,
        r.is_writable == a.is_writable,
{
    MeAlbum { id: a.id, name: a.name, asset_count: a.asset_count, is_writable: a.is_writable }
}

/// `caller` owns the album or is one of its users with the `editor` role.
pub open spec fn album_writable_by(album: ImmichAlbum, caller: Seq<char>) -> bool {
    album.owner_id@ == caller || exists|i: int|
        0 <= i < album.album_users@.len() && #[trigger] album.album_users@[i].user_id@ == caller
            && album.album_users@[i].role@ == "editor"@
}

/// Any album user listed as an editor may write, wherever the entry stands
/// in the list.
pub proof fn lemma_editor_may_write(album: ImmichAlbum, caller: Seq<char>, i: int)
    requires
        0 <= i < album.album_users@.len(),
        album.album_users@[i].user_id@ == caller,
        album.album_users@[i].role@ == "editor"@,
    ensures
        album_writable_by(album, caller),
{
}

/// The owner may write.
pub proof fn lemma_owner_may_write(album: ImmichAlbum)
    ensures
        album_writable_by(album, album.owner_id@),
{
}

/// A caller who is not the owner and has no editor entry may not write:
/// viewers, and users the album does not list, are refused.
pub proof fn lemma_others_may_not_write(album: ImmichAlbum, caller: Seq<char>)
    requires
        album.owner_id@ != caller,
        forall|i: int| 0 <= i < album.album_users@.len() && #[trigger] album.album_users@[i].user_id@ == caller
            ==> album.album_users@[i].role@ != "editor"@,
    ensures
        !album_writable_by(album, caller),
{
}

/// Whether `caller_user_id` may write to `album`: its owner or an editor.
pub fn is_album_writable_for(album: &ImmichAlbum, caller_user_id: &str) -> (r: bool)
    ensures
        r == album_writable_by(*album, caller_user_id@),
{
    proof {
        reveal_strlit("editor");
    }
    if str_eq(album.owner_id.as_str(), caller_user_id) {
        return true;
    }
    let mut i: usize = 0;
    while i < album.album_users.len()
        invariant
            i <= album.album_users@.len(),
            album.owner_id@ != caller_user_id@,
            forall|j: int| 0 <= j < i ==> !(#[trigger] album.album_users@[j].user_id@ == caller_user_id@
                && album.album_users@[j].role@ == "editor"@),
        decreases album.album_users@.len() - i,
    {
        let au = &album.album_users[i];
        if str_eq(au.user_id.as_str(), caller_user_id) && str_eq(au.role.as_str(), ALBUM_ROLE_EDITOR) {
            return true;
        }
        i += 1;
    }
    false
}

/// Whether `caller_user_id` may write to the album found under an id; an
/// album that is missing or invisible to the caller is not writable.
pub fn is_found_album_writable(album: &Option<ImmichAlbum>, caller_user_id: &str) -> (r: bool)
    ensures
        r == (*album matches Some(a) && album_writable_by(a, caller_user_id@)),
{
    match album {
        Some(a) => is_album_writable_for(a, caller_user_id),
        None => false,
    }
}

/// The picker summary of `album`, with its writability for `caller_user_id`.
pub fn album_summary(album: &ImmichAlbum, name: String, asset_count: u32, caller_user_id: &str) -> (s: ImmichAlbumSummary)
    ensures
        s.id == album.id,
        s.name == name,
        s.asset_count == asset_count,
        s.is_writable == album_writable_by(*album, caller_user_id@),
{
    let is_writable = is_album_writable_for(album, caller_user_id);
    ImmichAlbumSummary { id: album.id.clone(), name, asset_count, is_writable }
}

/// Immich's asset `type`, normalized; an unknown kind is `Other`.
#[derive(Debug, Clone, Copy, PartialEq, Eq, Structural)]
pub enum ImmichAssetType {
    Image,
    Video,
    Other,
}

/// The asset kind named by Immich's `type` string.
pub open spec fn asset_type_named(s: Seq<char>) -> ImmichAssetType {
    if s == "IMAGE"@ {
        ImmichAssetType::Image
    } else if s == "VIDEO"@ {
        ImmichAssetType::Video
    } else {
        ImmichAssetType::Other
    }
}

impl ImmichAssetType {
    /// `"IMAGE"` and `"VIDEO"` map to their kinds; anything else is `Other`.
    pub fn from_str(s: &str) -> (t: ImmichAssetType)
        ensures
            t == asset_type_named(s@),
    {
        if str_eq(s, "IMAGE") {
            ImmichAssetType::Image
        } else if str_eq(s, "VIDEO") {
            ImmichAssetType::Video
        } else {
            ImmichAssetType::Other
        }
    }
}

/// The asset shape the indexer stores. Instants are Unix seconds;
/// coordinates are binary64 bit patterns.
#[derive(Debug, Clone, PartialEq)]
pub struct ImmichAsset {
    pub id: String,
    /// `originalFileName`; empty when Immich omits it.
    pub filename: String,
    pub asset_type: ImmichAssetType,
    pub file_created_at: Option<i64>,
    pub exif_date_time_original: Option<i64>,
    pub latitude: Option<FloatBits>,
    pub longitude: Option<FloatBits>,
    pub people_ids: Vec<String>,
    pub updated_at: i64,
}

/// When the asset was taken: the EXIF original time, else the file
/// creation time.
pub open spec fn taken_at_of(a: ImmichAsset) -> Option<i64> {
    match a.exif_date_time_original {
        Some(t) => Some(t),
        None => a.file_created_at,
    }
}

impl ImmichAsset {
    /// When the asset was taken: the EXIF original time, else the file
    /// creation time.
    pub fn taken_at(&self) -> (t: Option<i64>)
        ensures
            t == taken_at_of(*self),
    {
        match self.exif_date_time_original {
            Some(t) => Some(t),
            None => self.file_created_at,
        }
    }

    /// Both coordinates are present.
    pub fn has_gps(&self) -> (r: bool)
        ensures
            r == (self.latitude is Some && self.longitude is Some),
    {
        self.latitude.is_some() && self.longitude.is_some()
    }
}

/// Failure of an Immich call.
#[derive(Debug, Clone, PartialEq)]
pub enum ValidationError {
    /// The API key was rejected (HTTP 401 or 403).
    Unauthorized(u16),
    /// Any other unexpected status.
    Upstream { status: u16 },
    /// The request did not complete.
    Transport(String),
    /// The stored base URL is not an http(s) URL.
    InvalidBaseUrl(String),
    /// The body is not the JSON expected.
    BadResponse(String),
}

/// What `url::Url::parse` makes of `raw`: the URL's serialization when it
/// parses, the parser's message when it does not.
pub uninterp spec fn url_parse_outcome(raw: Seq<char>) -> Result<Seq<char>, Seq<char>>;

/// Parses `raw` with `url::Url::parse`. The contract claims only that the
/// outcome is a function of `raw`: the serialization (`Url::as_str`) of the
/// parsed URL, or the `Display` text of the `ParseError`.
#[verifier::external_body]
fn parse_url(raw: &str) -> (r: Result<String, String>)
    ensures
        url_parse_outcome(raw@) == (match r {
            Ok(s) => Ok::<Seq<char>, Seq<char>>(s@),
            Err(e) => Err::<Seq<char>, Seq<char>>(e@),
        }),
{
    match url::Url::parse(raw) {
        Ok(u) => Ok(u.as_str().to_owned()),
        Err(e) => Err(e.to_string()),
    }
}

/// The normalised form of an Immich base URL (as the URL parser writes it
/// back, e.g. with a `/` path), or `InvalidBaseUrl` with the parser's
/// message when it does not parse.
pub fn normalize_base_url(raw: &str) -> (r: Result<String, ValidationError>)
    ensures
        match url_parse_outcome(raw@) {
            Ok(s) => r matches Ok(n) && n@ == s,
            Err(d) => r matches Err(ValidationError::InvalidBaseUrl(m)) && m@ == d,
        },
{
    match parse_url(raw) {
        Ok(s) => Ok(s),
        Err(d) => Err(ValidationError::InvalidBaseUrl(d)),
    }
}

/// `status` is a success (2xx).
pub open spec fn is_success(status: u16) -> bool {
    200 <= status && status <= 299
}

/// How a response status reads: `Ok(true)` for success, `Ok(false)` for "no
/// such resource" (400 or 404, only where `missing_ok`), otherwise the error.
pub open spec fn status_reading(status: u16, missing_ok: bool) -> Result<bool, ValidationError> {
    if is_success(status) {
        Ok(true)
    } else if status == 401 || status == 403 {
        Err(ValidationError::Unauthorized(status))
    } else if missing_ok && (status == 400 || status == 404) {
        Ok(false)
    } else {
        Err(ValidationError::Upstream { status })
    }
}

/// Reads a response status: success, a rejected key (401 or 403), "no such
/// resource" (400 or 404) where the endpoint answers that way for a missing
/// album, or an upstream failure.
pub fn check_status(status: u16, missing_ok: bool) -> (r: Result<bool, ValidationError>)
    ensures
        r == status_reading(status, missing_ok),
{
    if 200 <= status && status <= 299 {
        Ok(true)
    } else if status == 401 || status == 403 {
        Err(ValidationError::Unauthorized(status))
    } else if missing_ok && (status == 400 || status == 404) {
        Ok(false)
    } else {
        Err(ValidationError::Upstream { status })
    }
}

/// The `/api/people` page to fetch after page `page`, if any: the walk stops
/// when Immich reports no next page, or after [`MAX_PEOPLE_PAGES`] pages.
pub fn next_people_page(page: u32, has_next_page: bool) -> (next: Option<u32>)
    ensures
        next == (if has_next_page && page < MAX_PEOPLE_PAGES {
            Some((page + 1) as u32)
        } else {
            None
        }),
{
    if has_next_page && page < MAX_PEOPLE_PAGES {
        Some(page + 1)
    } else {
        None
    }
}

/// The number of `/api/search/metadata` pages a listing may walk: the
/// caller's budget, at least 1 and at most [`MAX_SEARCH_PAGES`].
pub fn search_page_budget(max_pages: u32) -> (n: u32)
    ensures
        n == (if max_pages < 1 {
            1
        } else if max_pages > MAX_SEARCH_PAGES {
            MAX_SEARCH_PAGES
        } else {
            max_pages
        }),
{
    if max_pages < 1 {
        1
    } else if max_pages > MAX_SEARCH_PAGES {
        MAX_SEARCH_PAGES
    } else {
        max_pages
    }
}

/// The search page to fetch next, from the `nextPage` marker of the last
/// response: none when the marker is null, empty or not a `u32`.
pub fn next_search_page(next_page: Option<&str>) -> (next: Option<u32>)
    ensures
        next == (match next_page {
            Some(s) => match parse_unsigned(s@, u32::MAX as int) {
                Some(v) => if s@.len() > 0 {
                    Some(v as u32)
                } else {
                    None
                },
                None => None,
            },
            None => None,
        }),
{
    match next_page {
        Some(s) => {
            if s.is_empty() {
                return None;
            }
            proof {
                lemma_parse_unsigned_bounds(s@, u32::MAX as int);
            }
            match parse_unsigned_at_most(s, 0xffff_ffff) {
                Some(v) => Some(v as u32),
                None => None,
            }
        },
        None => None,
    }
}

} // verus!

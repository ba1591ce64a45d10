//! Sources that live in archives: who can fetch them, and under which entry
//! a virtual URI is found.

use vstd::prelude::*;
use vstd::string::*;
use std::path::PathBuf;
use crate::state::{Location, LocationModel};
use crate::text::chars_of;
use crate::uri::{path_of, scheme_of, uri_parts};

verus! {

/// `std::path::PathBuf`, opaque to the verifier.
#[verifier::external_type_specification]
#[verifier::external_body]
pub struct ExPathBuf(PathBuf);

/// Why a source could not be fetched.
#[derive(Debug, Clone)]
pub struct FetchError {
    pub message: String,
}

/// A capability to fetch the contents of an archive entry.
pub trait SourceProvider {
    /// The contents of the entry `entry_path`.
    fn fetch(&self, entry_path: &str) -> Result<String, FetchError>;
}

/// A provider backed by a zip archive on disk.
pub struct ZipSourceProvider {
    pub zip_path: PathBuf,
}

impl ZipSourceProvider {
    /// A provider for the archive at `zip_path`.
    pub fn new(zip_path: PathBuf) -> (r: ZipSourceProvider)
        ensures
            r.zip_path == zip_path,
    {
        ZipSourceProvider { zip_path }
    }
}

/// `s` without the slashes it begins with.
pub open spec fn without_leading_slashes(s: Seq<char>) -> Seq<char>
    decreases s.len(),
{
    if s.len() > 0 && s[0] == '/' {
        without_leading_slashes(s.drop_first())
    } else {
        s
    }
}

/// Where a virtual URI points: the scheme that names the archive, and the
/// entry in it.
#[derive(Debug, Clone, PartialEq, Eq)]
pub struct ArchiveEntry {
    pub scheme: String,
    pub entry_path: String,
}

/// Model of an [`ArchiveEntry`].
pub struct EntryModel {
    pub scheme: Seq<char>,
    pub entry_path: Seq<char>,
}

impl DeepView for ArchiveEntry {
    type V = EntryModel;

    open spec fn deep_view(&self) -> EntryModel {
        EntryModel { scheme: self.scheme@, entry_path: self.entry_path@ }
    }
}

/// The archive entry that `uri` points at: its scheme, and its path without
/// the leading slashes. None where the URI is no absolute URL.
pub open spec fn archive_entry_of(uri: Seq<char>) -> Option<EntryModel> {
    match (scheme_of(uri), path_of(uri)) {
        (Some(scheme), Some(path)) => Some(
            EntryModel { scheme, entry_path: without_leading_slashes(path) },
        ),
        _ => None,
    }
}

/// The archive entry that `uri` points at.
pub fn archive_entry(uri: &str) -> (r: Option<ArchiveEntry>)
    ensures
        r.deep_view() == archive_entry_of(uri@),
{
    let parts = match uri_parts(uri) {
        Some(p) => p,
        None => {
            return None;
        },
    };
    let scheme = parts.scheme;
    let path = parts.path;
    let chars = chars_of(path.as_str());
    let mut i: usize = 0;
    assert(path@.subrange(0, path@.len() as int) =~= path@);
    while i < chars.len() && chars[i] == '/'
        invariant
            i <= chars.len(),
            chars@ == path@,
            without_leading_slashes(path@) == without_leading_slashes(
                path@.subrange(i as int, path@.len() as int),
            ),
        decreases chars.len() - i,
    {
        proof {
            let cur = path@.subrange(i as int, path@.len() as int);
            assert(cur[0] == chars@[i as int]);
            assert(cur.drop_first() =~= path@.subrange(i + 1, path@.len() as int));
        }
        i += 1;
    }
    proof {
        let cur = path@.subrange(i as int, path@.len() as int);
        if i < chars.len() {
            assert(cur[0] == chars@[i as int]);
        }
        assert(path@.subrange(0, path@.len() as int) =~= path@);
    }
    let entry_path = path.as_str().substring_char(i, chars.len()).to_owned();
    Some(ArchiveEntry { scheme, entry_path })
}

/// The location once its source has been written to the file `file_uri`:
/// the same span in that file.
pub fn materialized(location: &Location, file_uri: String) -> (r: Location)
    ensures
        r.deep_view() == (LocationModel { uri: file_uri@, range: location.range }),
{
    Location { uri: file_uri, range: location.range }
}

} // verus!

//! The scanner's data model: raw listing input, classified entries,
//! aggregate results and errors, with the ghost views the contracts use.

use vstd::prelude::*;
use vstd::string::*;
use crate::text::{lower_of, no_ascii_upper, ascii_upper, spec_extension, ext_of};

verus! {

/// A last-modification instant, normalized to UTC and held as plain values:
/// whole seconds since the Unix epoch and the nanosecond remainder.
#[derive(Clone, Copy, Debug, PartialEq, Eq, Structural)]
pub struct Timestamp {
    pub secs: i64,
    pub nanos: u32,
}

/// The outcome of asking for an entry's modification time, after its
/// metadata was already obtained.
#[derive(Debug, Clone, PartialEq, Eq)]
pub enum TimeOutcome {
    /// The timestamp could not be read; carries the cause as text.
    Unavailable(String),
    /// The timestamp, normalized to UTC.
    At(Timestamp),
}

/// The outcome of the stat-equivalent call for one child entry.
#[derive(Debug, Clone, PartialEq, Eq)]
pub enum MetaOutcome {
    /// Metadata could not be read (broken link, race with deletion):
    /// the entry is skipped silently.
    Unavailable,
    /// Metadata as the filesystem reported it.
    Available { size: u64, is_directory: bool, modified: TimeOutcome },
}

/// One child of the scanned directory, as the caller's probe saw it:
/// name and path already decoded to text (lossily, never failing),
/// metadata as an explicit outcome.
#[derive(Debug, Clone, PartialEq, Eq)]
pub struct RawEntry {
    pub name: String,
    pub path: String,
    pub meta: MetaOutcome,
}

/// One item yielded while listing the directory's children: either a
/// child's record, or the failure to obtain it.
#[derive(Debug, Clone, PartialEq, Eq)]
pub enum RawItem {
    /// Obtaining the directory-entry record itself failed; carries the
    /// cause as text.
    Failed(String),
    /// The record was obtained.
    Entry(RawEntry),
}

/// Everything the caller's probe of the target path found, as plain values.
#[derive(Debug, Clone, PartialEq, Eq)]
pub enum Listing {
    /// The path does not refer to an existing filesystem object.
    Missing,
    /// The path exists but is not a directory.
    NotDirectory,
    /// Listing the directory's children failed at the directory level.
    ListFailed(String),
    /// The children, in the order the listing yielded them.
    Entries(Vec<RawItem>),
}

/// One scanned filesystem child with its metadata, classified.
#[derive(Debug, Clone, PartialEq, Eq)]
pub struct FileInfo {
    pub name: String,
    pub path: String,
    pub size: u64,
    pub file_type: String,
    pub extension: Option<String>,
    pub modified: Timestamp,
    pub is_directory: bool,
}

/// The aggregate output of a scan.
#[derive(Debug, Clone, PartialEq, Eq)]
pub struct ScanResult {
    pub files: Vec<FileInfo>,
    pub total_count: usize,
    pub total_size: u64,
}

/// Why a scan failed. Mutually exclusive, first match wins in the order
/// the variants are declared.
#[derive(Debug, Clone, PartialEq, Eq)]
pub enum ScanError {
    /// The target path does not exist.
    NotFound,
    /// The target path exists but is not a directory.
    NotADirectory,
    /// Listing the directory's children failed; carries the cause.
    ReadDirectoryFailed(String),
    /// Obtaining a child's directory-entry record failed; carries the cause.
    ReadEntryFailed(String),
    /// A child's modification time was unreadable although its metadata
    /// had been obtained; carries the cause.
    TimestampUnavailable(String),
}

// ---------------------------------------------------------------------
// Ghost views: the same shapes over mathematical values.

#[verifier::ext_equal]
pub ghost enum TimeOutcomeV {
    Unavailable(Seq<char>),
    At(Timestamp),
}

#[verifier::ext_equal]
pub ghost enum MetaOutcomeV {
    Unavailable,
    Available { size: u64, is_directory: bool, modified: TimeOutcomeV },
}

#[verifier::ext_equal]
pub ghost struct RawEntryV {
    pub name: Seq<char>,
    pub path: Seq<char>,
    pub meta: MetaOutcomeV,
}

#[verifier::ext_equal]
pub ghost enum RawItemV {
    Failed(Seq<char>),
    Entry(RawEntryV),
}

#[verifier::ext_equal]
pub ghost enum ListingV {
    Missing,
    NotDirectory,
    ListFailed(Seq<char>),
    Entries(Seq<RawItemV>),
}

#[verifier::ext_equal]
pub ghost struct FileInfoV {
    pub name: Seq<char>,
    pub path: Seq<char>,
    pub size: u64,
    pub file_type: Seq<char>,
    pub extension: Option<Seq<char>>,
    pub modified: Timestamp,
    pub is_directory: bool,
}

#[verifier::ext_equal]
pub ghost struct ScanResultV {
    pub files: Seq<FileInfoV>,
    pub total_count: nat,
    pub total_size: int,
}

#[verifier::ext_equal]
pub ghost enum ScanErrorV {
    NotFound,
    NotADirectory,
    ReadDirectoryFailed(Seq<char>),
    ReadEntryFailed(Seq<char>),
    TimestampUnavailable(Seq<char>),
}

impl View for TimeOutcome {
    type V = TimeOutcomeV;

    open spec fn view(&self) -> TimeOutcomeV {
        match self {
            TimeOutcome::Unavailable(cause) => TimeOutcomeV::Unavailable(cause@),
            TimeOutcome::At(ts) => TimeOutcomeV::At(*ts),
        }
    }
}

impl View for MetaOutcome {
    type V = MetaOutcomeV;

    open spec fn view(&self) -> MetaOutcomeV {
        match self {
            MetaOutcome::Unavailable => MetaOutcomeV::Unavailable,
            MetaOutcome::Available { size, is_directory, modified } => MetaOutcomeV::Available {
                size: *size,
                is_directory: *is_directory,
                modified: modified@,
            },
        }
    }
}

impl View for RawEntry {
    type V = RawEntryV;

    open spec fn view(&self) -> RawEntryV {
        RawEntryV { name: self.name@, path: self.path@, meta: self.meta@ }
    }
}

impl View for RawItem {
    type V = RawItemV;

    open spec fn view(&self) -> RawItemV {
        match self {
            RawItem::Failed(cause) => RawItemV::Failed(cause@),
            RawItem::Entry(e) => RawItemV::Entry(e@),
        }
    }
}

/// The views of a sequence of listed items.
pub open spec fn item_views(s: Seq<RawItem>) -> Seq<RawItemV> {
    s.map_values(|it: RawItem| it@)
}

impl View for Listing {
    type V = ListingV;

    open spec fn view(&self) -> ListingV {
        match self {
            Listing::Missing => ListingV::Missing,
            Listing::NotDirectory => ListingV::NotDirectory,
            Listing::ListFailed(cause) => ListingV::ListFailed(cause@),
            Listing::Entries(items) => ListingV::Entries(item_views(items@)),
        }
    }
}

impl View for FileInfo {
    type V = FileInfoV;

    open spec fn view(&self) -> FileInfoV {
        FileInfoV {
            name: self.name@,
            path: self.path@,
            size: self.size,
            file_type: self.file_type@,
            extension: match self.extension {
                Some(e) => Some(e@),
                None => None,
            },
            modified: self.modified,
            is_directory: self.is_directory,
        }
    }
}

impl View for ScanResult {
    type V = ScanResultV;

    open spec fn view(&self) -> ScanResultV {
        ScanResultV {
            files: self.files@.map_values(|f: FileInfo| f@),
            total_count: self.total_count as nat,
            total_size: self.total_size as int,
        }
    }
}

impl View for ScanError {
    type V = ScanErrorV;

    open spec fn view(&self) -> ScanErrorV {
        match self {
            ScanError::NotFound => ScanErrorV::NotFound,
            ScanError::NotADirectory => ScanErrorV::NotADirectory,
            ScanError::ReadDirectoryFailed(cause) => ScanErrorV::ReadDirectoryFailed(cause@),
            ScanError::ReadEntryFailed(cause) => ScanErrorV::ReadEntryFailed(cause@),
            ScanError::TimestampUnavailable(cause) => ScanErrorV::TimestampUnavailable(cause@),
        }
    }
}

// ---------------------------------------------------------------------
// Classification.

/// The category of an entry: "Directory" for directories, else the folded
/// extension when the name has one, else the generic "File" marker.
pub open spec fn spec_file_type(is_directory: bool, name: Seq<char>) -> Seq<char> {
    if is_directory {
        "Directory"@
    } else {
        match ext_of(name) {
            Some(raw) => lower_of(raw),
            None => "File"@,
        }
    }
}

/// The classified entry that a raw child with the given decoded fields
/// becomes.
pub open spec fn spec_info(
    name: Seq<char>,
    path: Seq<char>,
    size: u64,
    is_directory: bool,
    modified: Timestamp,
) -> FileInfoV {
    FileInfoV {
        name,
        path,
        size,
        file_type: spec_file_type(is_directory, name),
        extension: spec_extension(name),
        modified,
        is_directory,
    }
}

/// The category marks a directory exactly when the entry is one.
pub open spec fn category_ok(f: FileInfoV) -> bool {
    f.file_type == "Directory"@ <==> f.is_directory
}

/// Builds one classified entry from the decoded fields of a child whose
/// metadata and timestamp were both obtained.
pub(crate) fn build_info(
    name: String,
    path: String,
    size: u64,
    is_directory: bool,
    modified: Timestamp,
) -> (r: FileInfo)
    ensures
        r@ == spec_info(name@, path@, size, is_directory, modified),
        category_ok(r@),
{
    let extension = crate::text::extension_of(name.as_str());
    let file_type: String = if is_directory {
        String::from_str("Directory")
    } else {
        match &extension {
            Some(e) => e.clone(),
            None => String::from_str("File"),
        }
    };
    proof {
        reveal_strlit("Directory");
        reveal_strlit("File");
        assert("Directory"@.len() == 9);
        assert("File"@.len() == 4);
        if !is_directory {
            match ext_of(name@) {
                Some(raw) => {
                    let x = extension.unwrap();
                    assert(file_type@ == x@);
                    assert(no_ascii_upper(x@));
                    if file_type@ == "Directory"@ {
                        assert(x@.len() == 9);
                        assert(x@[0] == "Directory"@[0]);
                        assert(x@[0] == 'D');
                        assert(ascii_upper('D'));
                        assert(false);
                    }
                },
                None => {
                    assert(file_type@ == "File"@);
                    assert(file_type@ != "Directory"@);
                },
            }
        }
    }
    FileInfo { name, path, size, file_type, extension, modified, is_directory }
}

/// The human-readable message for each failure, matching the text the
/// scanner reports at its boundary.
pub open spec fn message_of(e: ScanErrorV) -> Seq<char> {
    match e {
        ScanErrorV::NotFound => "Directory does not exist"@,
        ScanErrorV::NotADirectory => "Path is not a directory"@,
        ScanErrorV::ReadDirectoryFailed(cause) => "Failed to read directory: "@ + cause,
        ScanErrorV::ReadEntryFailed(cause) => "Failed to read entry: "@ + cause,
        ScanErrorV::TimestampUnavailable(cause) => "Failed to get modification time: "@ + cause,
    }
}

impl ScanError {
    /// Renders the failure as descriptive text, including the underlying
    /// cause where one was recorded.
    pub fn message(&self) -> (r: String)
        ensures
            r@ == message_of(self@),
    {
        match self {
            ScanError::NotFound => String::from_str("Directory does not exist"),
            ScanError::NotADirectory => String::from_str("Path is not a directory"),
            ScanError::ReadDirectoryFailed(cause) => String::from_str(
                "Failed to read directory: ",
            ).concat(cause.as_str()),
            ScanError::ReadEntryFailed(cause) => String::from_str(
                "Failed to read entry: ",
            ).concat(cause.as_str()),
            ScanError::TimestampUnavailable(cause) => String::from_str(
                "Failed to get modification time: ",
            ).concat(cause.as_str()),
        }
    }
}

} // verus!

//! Files under review: their coarse type, metadata snapshot and the
//! keep/trash decisions made on them.
use vstd::prelude::*;
use crate::text::str_eq;

verus! {

/// Coarse classification of a file, decided by its extension.
#[derive(Debug, Clone, Copy, PartialEq, Eq, Structural)]
pub enum FileType {
    Text,
    Image,
    Pdf,
    Binary,
}

/// What `str::to_lowercase` makes of a string.
pub uninterp spec fn lower_of(s: Seq<char>) -> Seq<char>;

/// Relies on `str::to_lowercase`: the full Unicode lowercase mapping of `s`,
/// a function of the characters alone.
#[verifier::external_body]
pub(crate) fn lowercase(s: &str) -> (r: String)
    ensures
        r@ == lower_of(s@),
{
    s.to_lowercase()
}

/// Extensions (already lowercased) that name text files.
pub open spec fn is_text_extension(e: Seq<char>) -> bool {
    e == "txt"@ || e == "md"@ || e == "rs"@ || e == "py"@ || e == "js"@ || e == "ts"@
        || e == "jsx"@ || e == "tsx"@ || e == "json"@ || e == "yaml"@ || e == "yml"@
        || e == "toml"@ || e == "xml"@ || e == "html"@ || e == "css"@ || e == "sh"@
        || e == "bash"@ || e == "c"@ || e == "cpp"@ || e == "h"@ || e == "hpp"@
        || e == "java"@ || e == "go"@ || e == "rb"@ || e == "php"@ || e == "swift"@
        || e == "kt"@ || e == "cs"@ || e == "sql"@
}

/// Extensions (already lowercased) that name image files.
pub open spec fn is_image_extension(e: Seq<char>) -> bool {
    e == "png"@ || e == "jpg"@ || e == "jpeg"@ || e == "gif"@ || e == "bmp"@ || e == "webp"@
        || e == "svg"@ || e == "ico"@
}

/// The file type named by an already lowercased extension.
pub open spec fn type_of_lowered(e: Seq<char>) -> FileType {
    if is_text_extension(e) {
        FileType::Text
    } else if is_image_extension(e) {
        FileType::Image
    } else if e == "pdf"@ {
        FileType::Pdf
    } else {
        FileType::Binary
    }
}

impl FileType {
    /// Classifies an extension, ignoring case.
    pub fn from_extension(ext: &str) -> (r: FileType)
        ensures
            r == type_of_lowered(lower_of(ext@)),
    {
        let lowered = lowercase(ext);
        FileType::from_lowered_extension(lowered.as_str())
    }

    /// Classifies an extension that is already in lower case.
    pub fn from_lowered_extension(e: &str) -> (r: FileType)
        ensures
            r == type_of_lowered(e@),
    {
        if str_eq(e, "txt") || str_eq(e, "md") || str_eq(e, "rs") || str_eq(e, "py")
            || str_eq(e, "js") || str_eq(e, "ts") || str_eq(e, "jsx") || str_eq(e, "tsx")
            || str_eq(e, "json") || str_eq(e, "yaml") || str_eq(e, "yml") || str_eq(e, "toml")
            || str_eq(e, "xml") || str_eq(e, "html") || str_eq(e, "css") || str_eq(e, "sh")
            || str_eq(e, "bash") || str_eq(e, "c") || str_eq(e, "cpp") || str_eq(e, "h")
            || str_eq(e, "hpp") || str_eq(e, "java") || str_eq(e, "go") || str_eq(e, "rb")
            || str_eq(e, "php") || str_eq(e, "swift") || str_eq(e, "kt") || str_eq(e, "cs")
            || str_eq(e, "sql") {
            FileType::Text
        } else if str_eq(e, "png") || str_eq(e, "jpg") || str_eq(e, "jpeg") || str_eq(e, "gif")
            || str_eq(e, "bmp") || str_eq(e, "webp") || str_eq(e, "svg") || str_eq(e, "ico") {
            FileType::Image
        } else if str_eq(e, "pdf") {
            FileType::Pdf
        } else {
            FileType::Binary
        }
    }
}

/// What the user decided about one file.
#[derive(Debug, Clone, Copy, PartialEq, Eq, Structural)]
pub enum Decision {
    Keep,
    Trash,
}

} // verus!

verus! {

/// A modification time: whole seconds since the Unix epoch and the
/// nanoseconds past that second.
#[derive(Debug, Clone, Copy, PartialEq, Eq, Structural)]
pub struct Timestamp {
    pub secs: i64,
    pub nanos: u32,
}

/// Snapshot of one file, taken once when the directory is scanned.
#[derive(Debug, Clone)]
pub struct FileEntry {
    pub path: String,
    pub name: String,
    pub size: u64,
    pub modified_date: Timestamp,
    pub file_type: FileType,
}

/// Counts of the decisions made during a session.
#[derive(Debug, Clone, Copy, PartialEq, Eq, Structural)]
pub struct DecisionStatistics {
    pub total_files: usize,
    pub kept: usize,
    pub trashed: usize,
}

} // verus!

verus! {

/// Position of the user in the file list, with the decisions made in order.
#[derive(Debug)]
pub struct AppState {
    pub files: Vec<FileEntry>,
    pub current_index: usize,
    pub decisions_stack: Vec<(usize, Decision)>,
}

impl AppState {
    /// Starts at the first file with no decision made.
    pub fn new(files: Vec<FileEntry>) -> (r: AppState)
        ensures
            r.files@ == files@,
            r.current_index == 0,
            r.decisions_stack@.len() == 0,
    {
        AppState { files, current_index: 0, decisions_stack: Vec::new() }
    }

    /// Moves to the next file; stays on the last one.
    pub fn next(&mut self)
        ensures
            final(self).files@ == old(self).files@,
            final(self).decisions_stack@ == old(self).decisions_stack@,
            final(self).current_index == if old(self).current_index + 1 < old(self).files@.len() {
                old(self).current_index + 1
            } else {
                old(self).current_index as int
            },
    {
        let len = self.files.len();
        let last = if len > 0 { len - 1 } else { 0 };
        if self.current_index < last {
            self.current_index = self.current_index + 1;
        }
    }

    /// Moves to the previous file; stays on the first one.
    pub fn previous(&mut self)
        ensures
            final(self).files@ == old(self).files@,
            final(self).decisions_stack@ == old(self).decisions_stack@,
            final(self).current_index == if old(self).current_index > 0 {
                old(self).current_index - 1
            } else {
                0
            },
    {
        if self.current_index > 0 {
            self.current_index = self.current_index - 1;
        }
    }

    /// The file at the current position, if the position is in the list.
    pub fn current_file(&self) -> (r: Option<&FileEntry>)
        ensures
            self.current_index < self.files@.len() ==> r == Some(&self.files@[self.current_index as int]),
            self.current_index >= self.files@.len() ==> r is None,
    {
        if self.current_index < self.files.len() {
            Some(&self.files[self.current_index])
        } else {
            None
        }
    }

    /// Records `decision` for the current file.
    pub fn record_decision(&mut self, decision: Decision)
        ensures
            final(self).files@ == old(self).files@,
            final(self).current_index == old(self).current_index,
            final(self).decisions_stack@ == old(self).decisions_stack@.push((old(self).current_index, decision)),
    {
        self.decisions_stack.push((self.current_index, decision));
    }

    /// Takes back the last decision, if any.
    pub fn undo(&mut self) -> (r: Option<(usize, Decision)>)
        ensures
            final(self).files@ == old(self).files@,
            final(self).current_index == old(self).current_index,
            old(self).decisions_stack@.len() == 0 ==> r is None && final(self).decisions_stack@.len() == 0,
            old(self).decisions_stack@.len() > 0 ==> r == Some(old(self).decisions_stack@.last())
                && final(self).decisions_stack@ == old(self).decisions_stack@.drop_last(),
    {
        self.decisions_stack.pop()
    }
}

/// Criteria by which files are ordered.
#[derive(Debug, Clone, Copy, PartialEq, Eq, Structural)]
pub enum SortBy {
    Date,
    Name,
    Size,
    Type,
}

impl Default for SortBy {
    fn default() -> (r: SortBy)
        ensures
            r == SortBy::Date,
    {
        SortBy::Date
    }
}

/// Which files a scan keeps and how it orders them.
#[derive(Debug, Clone)]
pub struct DiscoveryOptions {
    /// Types to keep (`None`: every type).
    pub file_types: Option<Vec<FileType>>,
    /// Keep files whose name starts with a dot.
    pub show_hidden: bool,
    /// Smallest size kept, in bytes.
    pub min_size: Option<u64>,
    /// Largest size kept, in bytes.
    pub max_size: Option<u64>,
    pub sort_by: SortBy,
    /// Reverse the order after sorting.
    pub reverse: bool,
}

impl DiscoveryOptions {
    /// Every visible file, by date, oldest first.
    pub fn all_files() -> (r: DiscoveryOptions)
        ensures
            r.file_types is None,
            !r.show_hidden,
            r.min_size is None,
            r.max_size is None,
            r.sort_by == SortBy::Date,
            !r.reverse,
    {
        DiscoveryOptions { file_types: None, show_hidden: false, min_size: None, max_size: None, sort_by: SortBy::Date, reverse: false }
    }
}

impl Default for DiscoveryOptions {
    fn default() -> (r: DiscoveryOptions)
        ensures
            r.file_types is None,
            !r.show_hidden,
            r.min_size is None,
            r.max_size is None,
            r.sort_by == SortBy::Date,
            !r.reverse,
    {
        DiscoveryOptions::all_files()
    }
}

} // verus!

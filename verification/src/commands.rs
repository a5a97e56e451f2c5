//! The operations that the user interface calls, as far as they decide
//! anything: what each returns for what the prompt, the disk and the store
//! gave, and what it records.

use vstd::prelude::*;
use chrono::NaiveDateTime;
use crate::clock::now;
use crate::recent::{entries_of, recorded, AppState, Entry, RecentFile};
use crate::templates::{catalog, catalog_templates, samples_of, Template};
use crate::text::{chars_of, push_all};
use crate::validator::{report_of, validate, ValidationResult};

verus! {

/// What is reported where a file could not be written.
pub const SAVE_FAILED: &'static str = "Failed to save file: ";

/// What is reported where a file could not be read.
pub const READ_FAILED: &'static str = "Failed to read file: ";

/// What is reported where an export could not be written.
pub const EXPORT_FAILED: &'static str = "Failed to export: ";

/// What is reported where the snapshot of the store could not be written.
pub const PERSIST_FAILED: &'static str = "Failed to save state: ";

/// What is reported where the prompt gave a path that is none of the file
/// system.
pub const CONVERT_PATH_FAILED: &'static str = "Failed to convert path: ";

/// What is said of a prompt that the user dismissed.
pub const CANCELLED: &'static str = "Cancelled";

/// What is said where the store could not be reached.
pub const STORE_UNAVAILABLE: &'static str = "Failed to access recent files";

/// What is said of a format that cannot be exported.
pub const UNSUPPORTED_FORMAT: &'static str = "Unsupported format";

/// Why an operation gave no result.
#[derive(Debug, PartialEq, Eq)]
pub enum CommandError {
    /// The user dismissed the prompt for a path. This is no failure.
    Cancelled,
    /// Reading or writing failed; the text says what failed and why.
    Io(String),
    /// The store could not be reached.
    LockUnavailable,
    /// The format asked for cannot be exported.
    UnsupportedFormat,
}

/// Why an operation gave no result, as the contracts see it.
pub enum Failure {
    Cancelled,
    Io(Seq<char>),
    LockUnavailable,
    UnsupportedFormat,
}

impl View for CommandError {
    type V = Failure;

    open spec fn view(&self) -> Failure {
        match self {
            CommandError::Cancelled => Failure::Cancelled,
            CommandError::Io(text) => Failure::Io(text@),
            CommandError::LockUnavailable => Failure::LockUnavailable,
            CommandError::UnsupportedFormat => Failure::UnsupportedFormat,
        }
    }
}

impl Failure {
    /// What the user is told of the failure.
    pub open spec fn message(self) -> Seq<char> {
        match self {
            Failure::Cancelled => CANCELLED@,
            Failure::Io(text) => text,
            Failure::LockUnavailable => STORE_UNAVAILABLE@,
            Failure::UnsupportedFormat => UNSUPPORTED_FORMAT@,
        }
    }
}

impl CommandError {
    /// What the user is told of the failure.
    pub fn message(&self) -> (s: String)
        ensures
            s@ == self@.message(),
    {
        match self {
            CommandError::Cancelled => CANCELLED.to_string(),
            CommandError::Io(text) => text.clone(),
            CommandError::LockUnavailable => STORE_UNAVAILABLE.to_string(),
            CommandError::UnsupportedFormat => UNSUPPORTED_FORMAT.to_string(),
        }
    }

    /// Tells whether the user dismissed a prompt, which calls for no report.
    pub fn is_cancelled(&self) -> (b: bool)
        ensures
            b == (self@ == Failure::Cancelled),
    {
        match self {
            CommandError::Cancelled => true,
            _ => false,
        }
    }
}

/// A failure of reading or writing: what failed, then why.
pub fn io_failure(what: &str, why: &str) -> (e: CommandError)
    ensures
        e@ == Failure::Io(what@ + why@),
{
    let mut text = what.to_string();
    push_all(&mut text, &chars_of(why));
    CommandError::Io(text)
}

/// A file that was read, with its path.
#[derive(Debug, PartialEq, Eq)]
pub struct FileContent {
    pub content: String,
    pub path: Option<String>,
}

/// A file that was read, as texts.
pub struct Document {
    pub content: Seq<char>,
    pub path: Option<Seq<char>>,
}

impl View for FileContent {
    type V = Document;

    open spec fn view(&self) -> Document {
        Document {
            content: self.content@,
            path: match self.path {
                Some(p) => Some(p@),
                None => None,
            },
        }
    }
}

/// Where an operation takes the path of its file from.
#[derive(Debug, PartialEq, Eq)]
pub enum PathSource {
    /// The caller gave the path.
    Given(String),
    /// The user is to be asked for it.
    Prompt,
}

/// Where an operation takes its path from: the caller where it gave one,
/// else the user.
pub fn path_source(given: Option<String>) -> (r: PathSource)
    ensures
        match given {
            Some(p) => r == PathSource::Given(p),
            None => r == PathSource::Prompt,
        },
{
    match given {
        Some(p) => PathSource::Given(p),
        None => PathSource::Prompt,
    }
}

/// The path that a prompt gave. A prompt that the user dismissed gives
/// none, which is a cancellation and no failure.
pub fn prompted(choice: Option<String>) -> (r: Result<String, CommandError>)
    ensures
        match choice {
            Some(p) => r == Ok::<String, CommandError>(p),
            None => r is Err && r->Err_0@ == Failure::Cancelled,
        },
{
    match choice {
        Some(p) => Ok(p),
        None => Err(CommandError::Cancelled),
    }
}

/// What saving returns for what writing the file gave.
pub open spec fn save_outcome(path: Seq<char>, written: Result<(), String>) -> Result<
    Seq<char>,
    Failure,
> {
    match written {
        Ok(_) => Ok(path),
        Err(why) => Err(Failure::Io(SAVE_FAILED@ + why@)),
    }
}

/// What opening returns for what reading the file gave.
pub open spec fn load_outcome(path: Seq<char>, read: Result<String, String>) -> Result<
    Document,
    Failure,
> {
    match read {
        Ok(content) => Ok(Document { content: content@, path: Some(path) }),
        Err(why) => Err(Failure::Io(READ_FAILED@ + why@)),
    }
}

/// A result of saving or exporting, as texts.
pub open spec fn path_result(r: Result<String, CommandError>) -> Result<Seq<char>, Failure> {
    match r {
        Ok(p) => Ok(p@),
        Err(e) => Err(e@),
    }
}

/// A result of opening, as texts.
pub open spec fn file_result(r: Result<FileContent, CommandError>) -> Result<Document, Failure> {
    match r {
        Ok(f) => Ok(f@),
        Err(e) => Err(e@),
    }
}

/// What saving returns where the store cannot be reached: the path where
/// the file was written, else the failure of writing.
pub fn save_result(path: String, written: Result<(), String>) -> (r: Result<String, CommandError>)
    ensures
        path_result(r) == save_outcome(path@, written),
{
    match written {
        Ok(_) => Ok(path),
        Err(why) => Err(io_failure(SAVE_FAILED, why.as_str())),
    }
}

/// Ends a save of the file at `path`, shown as `name`, at the moment `when`:
/// where the file was written the access is recorded and the path returned;
/// where it was not, the store stays as it is and the failure is returned.
pub fn save_file(
    state: &mut AppState,
    path: String,
    name: String,
    written: Result<(), String>,
    when: NaiveDateTime,
) -> (r: Result<String, CommandError>)
    ensures
        path_result(r) == save_outcome(path@, written),
        final(state)@ == if written is Ok {
            recorded(old(state)@, Entry { path: path@, name: name@, last_opened: when })
        } else {
            old(state)@
        },
        old(state).is_well_formed() ==> final(state).is_well_formed(),
{
    if written.is_ok() {
        state.record_at(path.clone(), name, when);
    }
    save_result(path, written)
}

/// Ends a save of the file at `path`, shown as `name`, at the present
/// moment.
pub fn save_file_content_to_disk(
    state: &mut AppState,
    path: String,
    name: String,
    written: Result<(), String>,
) -> (r: Result<String, CommandError>)
    ensures
        path_result(r) == save_outcome(path@, written),
        written is Err ==> final(state)@ == old(state)@,
        written is Ok ==> exists|when: NaiveDateTime|
            final(state)@ == recorded(
                old(state)@,
                Entry { path: path@, name: name@, last_opened: when },
            ),
        old(state).is_well_formed() ==> final(state).is_well_formed(),
{
    let when = now();
    save_file(state, path, name, written, when)
}

/// What opening returns where the store cannot be reached: the file where
/// it was read, else the failure of reading.
pub fn load_result(path: String, read: Result<String, String>) -> (r: Result<
    FileContent,
    CommandError,
>)
    ensures
        file_result(r) == load_outcome(path@, read),
{
    match read {
        Ok(content) => Ok(FileContent { content, path: Some(path) }),
        Err(why) => Err(io_failure(READ_FAILED, why.as_str())),
    }
}

/// Ends the opening of the file at `path`, shown as `name`, at the moment
/// `when`: where the file was read the access is recorded and the file
/// returned; where it was not, the store stays as it is and the failure is
/// returned.
pub fn load_file_at(
    state: &mut AppState,
    path: String,
    name: String,
    read: Result<String, String>,
    when: NaiveDateTime,
) -> (r: Result<FileContent, CommandError>)
    ensures
        file_result(r) == load_outcome(path@, read),
        final(state)@ == if read is Ok {
            recorded(old(state)@, Entry { path: path@, name: name@, last_opened: when })
        } else {
            old(state)@
        },
        old(state).is_well_formed() ==> final(state).is_well_formed(),
{
    if read.is_ok() {
        state.record_at(path.clone(), name, when);
    }
    load_result(path, read)
}

/// Ends the opening of the file at `path`, shown as `name`, at the present
/// moment.
pub fn load_file(state: &mut AppState, path: String, name: String, read: Result<String, String>) -> (r:
    Result<FileContent, CommandError>)
    ensures
        file_result(r) == load_outcome(path@, read),
        read is Err ==> final(state)@ == old(state)@,
        read is Ok ==> exists|when: NaiveDateTime|
            final(state)@ == recorded(
                old(state)@,
                Entry { path: path@, name: name@, last_opened: when },
            ),
        old(state).is_well_formed() ==> final(state).is_well_formed(),
{
    let when = now();
    load_file_at(state, path, name, read, when)
}

/// Checks the source text of a diagram. It never fails.
pub fn validate_mermaid_syntax(content: String) -> (r: Result<ValidationResult, CommandError>)
    ensures
        r is Ok,
        r->Ok_0@ == report_of(content@),
{
    Ok(validate(content.as_str()))
}

/// The recent files, most recent first, which is all there is to it where
/// the store is at hand; where it could not be reached, that is the failure.
pub fn get_recent_files(state: Option<&AppState>) -> (r: Result<Vec<RecentFile>, CommandError>)
    ensures
        match state {
            Some(s) => r is Ok && entries_of(r->Ok_0@) == s@,
            None => r is Err && r->Err_0@ == Failure::LockUnavailable,
        },
{
    match state {
        Some(s) => Ok(s.list()),
        None => Err(CommandError::LockUnavailable),
    }
}

/// Empties the store. Writing the empty snapshot comes after, and
/// `cleared` says what to return for what that gave.
pub fn clear_recent_files(state: &mut AppState)
    ensures
        final(state)@ == Seq::<Entry>::empty(),
        final(state).is_well_formed(),
{
    state.clear();
}

/// What clearing returns for what writing the snapshot gave: the failure of
/// writing where there was one. The store is empty either way.
pub fn cleared(persisted: Result<(), String>) -> (r: Result<(), CommandError>)
    ensures
        match persisted {
            Ok(_) => r is Ok,
            Err(why) => r is Err && r->Err_0@ == Failure::Io(PERSIST_FAILED@ + why@),
        },
{
    match persisted {
        Ok(_) => Ok(()),
        Err(why) => Err(io_failure(PERSIST_FAILED, why.as_str())),
    }
}

/// The templates of the catalog. It never fails.
pub fn get_templates() -> (r: Result<Vec<Template>, CommandError>)
    ensures
        r is Ok,
        samples_of(r->Ok_0@) == catalog(),
{
    Ok(catalog_templates())
}

/// A format in which a diagram can be exported.
#[derive(Clone, Copy, Debug, PartialEq, Eq, Structural)]
pub enum ExportFormat {
    Png,
    Svg,
    Pdf,
}

impl ExportFormat {
    /// The file extension of the format, which is also its name.
    pub open spec fn extension_of(self) -> Seq<char> {
        match self {
            ExportFormat::Png => "png"@,
            ExportFormat::Svg => "svg"@,
            ExportFormat::Pdf => "pdf"@,
        }
    }

    /// The label of the format's filter in the prompt for a path.
    pub open spec fn filter_label_of(self) -> Seq<char> {
        match self {
            ExportFormat::Png => "PNG Files"@,
            ExportFormat::Svg => "SVG Files"@,
            ExportFormat::Pdf => "PDF Files"@,
        }
    }

    /// The file extension of the format.
    pub fn extension(self) -> (s: &'static str)
        ensures
            s@ == self.extension_of(),
    {
        match self {
            ExportFormat::Png => "png",
            ExportFormat::Svg => "svg",
            ExportFormat::Pdf => "pdf",
        }
    }

    /// The label of the format's filter in the prompt for a path.
    pub fn filter_label(self) -> (s: &'static str)
        ensures
            s@ == self.filter_label_of(),
    {
        match self {
            ExportFormat::Png => "PNG Files",
            ExportFormat::Svg => "SVG Files",
            ExportFormat::Pdf => "PDF Files",
        }
    }
}

/// The format that a name stands for: the name is the format's extension,
/// letter for letter.
pub open spec fn format_named(name: Seq<char>) -> Option<ExportFormat> {
    if name == ExportFormat::Png.extension_of() {
        Some(ExportFormat::Png)
    } else if name == ExportFormat::Svg.extension_of() {
        Some(ExportFormat::Svg)
    } else if name == ExportFormat::Pdf.extension_of() {
        Some(ExportFormat::Pdf)
    } else {
        None
    }
}

/// The format in which to export, which is refused exactly where the name
/// stands for none.
pub fn export_format(name: &str) -> (r: Result<ExportFormat, CommandError>)
    ensures
        match format_named(name@) {
            Some(f) => r is Ok && r->Ok_0 == f,
            None => r is Err && r->Err_0@ == Failure::UnsupportedFormat,
        },
{
    let asked = name.to_string();
    if asked == ExportFormat::Png.extension().to_string() {
        Ok(ExportFormat::Png)
    } else if asked == ExportFormat::Svg.extension().to_string() {
        Ok(ExportFormat::Svg)
    } else if asked == ExportFormat::Pdf.extension().to_string() {
        Ok(ExportFormat::Pdf)
    } else {
        Err(CommandError::UnsupportedFormat)
    }
}

/// What exporting returns for what writing the file gave: the path where
/// the file was written, else the failure of writing.
pub fn export_diagram(path: String, written: Result<(), String>) -> (r: Result<
    String,
    CommandError,
>)
    ensures
        match written {
            Ok(_) => r == Ok::<String, CommandError>(path),
            Err(why) => r is Err && r->Err_0@ == Failure::Io(EXPORT_FAILED@ + why@),
        },
{
    match written {
        Ok(_) => Ok(path),
        Err(why) => Err(io_failure(EXPORT_FAILED, why.as_str())),
    }
}

} // verus!

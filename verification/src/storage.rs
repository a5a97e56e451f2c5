//! Where the snapshot of the store lies on disk.

use vstd::prelude::*;
use std::path::PathBuf;
use crate::commands::{CommandError, Failure};

verus! {

/// The directory of this application under the user's data directory.
pub const APP_DIRECTORY: &'static str = "flowcraft-studio";

/// The file that holds the snapshot of the store.
pub const STATE_FILE: &'static str = "state.json";

/// What is reported where the user's data directory is not known.
pub const NO_DATA_DIRECTORY: &'static str = "Could not determine app data directory";

/// What is reported where the snapshot file could not be read.
pub const READ_STATE_FAILED: &'static str = "Failed to read state file: ";

/// What is reported where the snapshot could not be decoded.
pub const PARSE_STATE_FAILED: &'static str = "Failed to parse state file: ";

/// What is reported where the application's directory could not be made.
pub const CREATE_DIRECTORY_FAILED: &'static str = "Failed to create app directory: ";

/// What is reported where the snapshot could not be encoded.
pub const SERIALIZE_STATE_FAILED: &'static str = "Failed to serialize state: ";

/// What is reported where the snapshot file could not be written.
pub const WRITE_STATE_FAILED: &'static str = "Failed to write state file: ";

/// `std::path::PathBuf`, an owned path of the file system.
#[verifier::external_type_specification]
#[verifier::external_body]
pub struct ExPathBuf(PathBuf);

/// `dirs::data_dir` gives the user's data directory, which it takes from the
/// environment and the platform, or nothing where it finds none. Nothing is
/// claimed of what it returns.
pub assume_specification[ dirs::data_dir ]() -> Option<PathBuf>;

/// What `Path::join` makes of a directory and a name: the path of that name
/// under that directory, as the platform writes it.
pub uninterp spec fn path_under(dir: PathBuf, name: Seq<char>) -> PathBuf;

/// `Path::join` gives the path of `name` under `dir`, which depends on the
/// two alone.
#[verifier::external_body]
fn join(dir: &PathBuf, name: &str) -> (r: PathBuf)
    ensures
        r == path_under(*dir, name@),
{
    dir.join(name)
}

/// Where the snapshot lies under the data directory `base`: in the file
/// `STATE_FILE` of the directory `APP_DIRECTORY`.
pub open spec fn state_file_of(base: PathBuf) -> PathBuf {
    path_under(path_under(base, APP_DIRECTORY@), STATE_FILE@)
}

/// The application's directory under the data directory `base`. It fails,
/// with a failure of reading and writing, exactly where there is no data
/// directory.
pub fn app_dir_under(base: Option<PathBuf>) -> (r: Result<PathBuf, CommandError>)
    ensures
        match base {
            Some(dir) => r is Ok && r->Ok_0 == path_under(dir, APP_DIRECTORY@),
            None => r is Err && r->Err_0@ == Failure::Io(NO_DATA_DIRECTORY@),
        },
{
    match base {
        Some(dir) => Ok(join(&dir, APP_DIRECTORY)),
        None => Err(CommandError::Io(NO_DATA_DIRECTORY.to_string())),
    }
}

/// The application's directory under the user's data directory. Whether
/// there is a data directory is for the platform to say; where there is
/// none the failure is one of reading and writing.
pub fn get_app_data_dir() -> (r: Result<PathBuf, CommandError>)
    ensures
        r is Ok ==> exists|base: PathBuf| r->Ok_0 == path_under(base, APP_DIRECTORY@),
        r is Err ==> r->Err_0@ == Failure::Io(NO_DATA_DIRECTORY@),
{
    app_dir_under(dirs::data_dir())
}

/// The snapshot file under the application's directory, where there is one;
/// else the failure as it is.
pub fn state_file_under(app_dir: Result<PathBuf, CommandError>) -> (r: Result<
    PathBuf,
    CommandError,
>)
    ensures
        match app_dir {
            Ok(dir) => r is Ok && r->Ok_0 == path_under(dir, STATE_FILE@),
            Err(e) => r == app_dir,
        },
{
    match app_dir {
        Ok(dir) => Ok(join(&dir, STATE_FILE)),
        Err(e) => Err(e),
    }
}

/// The snapshot file of this application: `STATE_FILE` in `APP_DIRECTORY`
/// under the user's data directory.
pub fn state_file() -> (r: Result<PathBuf, CommandError>)
    ensures
        r is Ok ==> exists|base: PathBuf| r->Ok_0 == state_file_of(base),
        r is Err ==> r->Err_0@ == Failure::Io(NO_DATA_DIRECTORY@),
{
    let app_dir = get_app_data_dir();
    let ghost found = app_dir;
    let r = state_file_under(app_dir);
    proof {
        if r is Ok {
            let base = choose|base: PathBuf| found->Ok_0 == path_under(base, APP_DIRECTORY@);
            assert(r->Ok_0 == state_file_of(base));
        }
    }
    r
}

} // verus!

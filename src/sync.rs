use vstd::prelude::*;

use crate::archive::{Archive, ArchiveEntry, DownloadTask, ExportSkip};
use crate::paginator::{FetchError, ListingItem};
use crate::reserved::ReservedNameSet;
use crate::retry::Operation;

verus! {

/// The import cannot run at all: its archive directory is not there.
#[derive(Debug, Clone)]
pub enum ConfigurationError {
    DirectoryMissing { directory: String },
    /// Whether the directory exists could not be found out.
    DirectoryUnreadable { directory: String, message: String },
}

/// What the export does with one item of the listing.
#[derive(Debug)]
pub enum ExportStep {
    /// Fetch the image and store it in the archive.
    Download(DownloadTask),
    /// Report the record as skipped and go on.
    Skip(ExportSkip),
    /// Report the failed page; the listing ends here.
    ListingFailed(FetchError),
}

/// What the import does with one archive entry.
#[derive(Debug)]
pub enum ImportDecision {
    /// The name is a standard short code: report the conflict, upload nothing.
    Conflict { name: String },
    /// Upload the entry.
    Upload(Operation),
}

/// Decides, from the outcome of the existence check of the archive
/// directory, whether the import can go on.
pub fn check_import_directory(directory: &str, exists: Result<bool, String>) -> (r: Result<
    (),
    ConfigurationError,
>)
    ensures
        r is Ok <==> exists == Ok::<bool, String>(true),
        match r {
            Ok(_) => true,
            Err(ConfigurationError::DirectoryMissing { directory: d }) => exists == Ok::<
                bool,
                String,
            >(false) && d@ == directory@,
            Err(ConfigurationError::DirectoryUnreadable { directory: d, message }) => exists is Err
                && d@ == directory@ && message@ == exists->Err_0@,
        },
{
    match exists {
        Ok(true) => Ok(()),
        Ok(false) => Err(ConfigurationError::DirectoryMissing { directory: String::from_str(directory) }),
        Err(message) => Err(
            ConfigurationError::DirectoryUnreadable { directory: String::from_str(directory), message },
        ),
    }
}

/// The export's step for one listing item: a record is downloaded into the
/// archive unless it is skipped; a failed page is reported.
pub fn export_step(archive: &Archive, item: ListingItem) -> (r: ExportStep)
    ensures
        r is ListingFailed <==> item is Err,
        match r {
            ExportStep::ListingFailed(e) => item == Err::<crate::record::EmojiRecord, FetchError>(e),
            ExportStep::Download(t) => item is Ok && archive.download_outcome(
                item->Ok_0,
                Ok::<DownloadTask, ExportSkip>(t),
            ),
            ExportStep::Skip(s) => item is Ok && archive.download_outcome(
                item->Ok_0,
                Err::<DownloadTask, ExportSkip>(s),
            ),
        },
{
    match item {
        Err(e) => ExportStep::ListingFailed(e),
        Ok(record) => match archive.download_task(&record) {
            Ok(t) => ExportStep::Download(t),
            Err(s) => ExportStep::Skip(s),
        },
    }
}

/// The import's decision for one archive entry: a reserved name is skipped
/// as a conflict and nothing is uploaded; any other name is uploaded from its file.
pub fn import_decision(reserved: &ReservedNameSet, entry: &ArchiveEntry) -> (r: ImportDecision)
    ensures
        r is Conflict <==> reserved.view().contains(entry.name@),
        match r {
            ImportDecision::Conflict { name } => name@ == entry.name@,
            ImportDecision::Upload(Operation::Upload { name, filename }) => name@ == entry.name@
                && filename@ == entry.filename@,
            ImportDecision::Upload(Operation::Alias { .. }) => false,
        },
{
    if reserved.contains(entry.name.as_str()) {
        ImportDecision::Conflict { name: entry.name.clone() }
    } else {
        ImportDecision::Upload(
            Operation::Upload { name: entry.name.clone(), filename: entry.filename.clone() },
        )
    }
}

} // verus!

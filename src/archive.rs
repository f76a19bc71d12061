use vstd::prelude::*;

use crate::record::{EmojiRecord, EmojiSource};
use crate::text::{
    after_last, before_first, lemma_split_after_plain_head, split_at_first,
    split_text_at_first, text_after_last, text_before_first,
};

verus! {

pub open spec fn is_name_char(c: char) -> bool {
    c != '.' && c != '/' && c != '\\'
}

/// An emoji name that can stand as the stem of a file name: not empty, and
/// without dots or path separators.
pub open spec fn valid_name(s: Seq<char>) -> bool {
    s.len() > 0 && forall|i: int| 0 <= i < s.len() ==> is_name_char(#[trigger] s[i])
}

pub open spec fn is_extension_char(c: char) -> bool {
    ('a' <= c && c <= 'z') || ('A' <= c && c <= 'Z') || ('0' <= c && c <= '9')
}

/// A file extension: one or more ASCII letters and digits.
pub open spec fn valid_extension(s: Seq<char>) -> bool {
    s.len() > 0 && forall|i: int| 0 <= i < s.len() ==> is_extension_char(#[trigger] s[i])
}

/// The extension of the last segment of a URL's path, if it has a valid one.
pub open spec fn url_extension(url: Seq<char>) -> Option<Seq<char>> {
    let segment = after_last(before_first(url, '?', '#'), '/');
    let ext = after_last(segment, '.');
    if segment.contains('.') && valid_extension(ext) {
        Some(ext)
    } else {
        None
    }
}

/// The file name of an emoji: its name, then a dot and the extension if any.
pub open spec fn file_name(name: Seq<char>, ext: Option<Seq<char>>) -> Seq<char> {
    match ext {
        Some(e) => name + seq!['.'] + e,
        None => name,
    }
}

/// The extension that a record's file gets: that of its image URL; none for an alias.
pub open spec fn record_extension(record: EmojiRecord) -> Option<Seq<char>> {
    match record.source {
        EmojiSource::Image(url) => url_extension(url@),
        EmojiSource::Alias(_) => None,
    }
}

/// The file name under which a record is archived.
pub open spec fn record_file_name(record: EmojiRecord) -> Seq<char> {
    file_name(record.name@, record_extension(record))
}

/// The emoji name that an archive file name stands for, if it follows the
/// naming scheme.
pub open spec fn name_of_file(filename: Seq<char>) -> Option<Seq<char>> {
    let (stem, ext) = split_at_first(filename, '.');
    if valid_name(stem) && (ext is None || valid_extension(ext->0)) {
        Some(stem)
    } else {
        None
    }
}

/// The file system as a map from file path to contents.
pub type DirectoryModel = Map<Seq<char>, Seq<u8>>;

/// The file system after a download task has written `bytes` to its path;
/// a file already there is replaced.
pub open spec fn after_write(dir: DirectoryModel, task: DownloadTask, bytes: Seq<u8>) -> DirectoryModel {
    dir.insert(task.filepath@, bytes)
}

/// Why an archive file is not read as an emoji.
#[derive(Debug, Clone)]
pub enum ScanError {
    /// The file name does not follow the naming scheme.
    UnrecognisedFile { filename: String },
}

/// Why a record is not written to the archive.
#[derive(Debug, Clone)]
pub enum ExportSkip {
    /// The name cannot stand as a file name.
    InvalidName { name: String },
    /// The record is an alias, which has no image of its own.
    Alias { name: String, target: String },
}

/// An emoji found in the archive.
#[derive(Debug, Clone)]
pub struct ArchiveEntry {
    pub name: String,
    pub filename: String,
    pub filepath: String,
}

/// Where to fetch a record's image from and where to store it.
#[derive(Debug, Clone)]
pub struct DownloadTask {
    pub name: String,
    pub url: String,
    pub filename: String,
    pub filepath: String,
}

/// One directory that holds one file per emoji.
#[derive(Debug, Clone)]
pub struct Archive {
    directory: String,
}

pub fn is_valid_name(s: &str) -> (r: bool)
    ensures
        r == valid_name(s@),
{
    let n = s.unicode_len();
    if n == 0 {
        return false;
    }
    let mut i: usize = 0;
    while i < n
        invariant
            n == s@.len(),
            i <= n,
            forall|j: int| 0 <= j < i ==> is_name_char(#[trigger] s@[j]),
        decreases n - i,
    {
        let c = s.get_char(i);
        if c == '.' || c == '/' || c == '\\' {
            assert(!is_name_char(s@[i as int]));
            return false;
        }
        i = i + 1;
    }
    true
}

pub fn is_valid_extension(s: &str) -> (r: bool)
    ensures
        r == valid_extension(s@),
{
    let n = s.unicode_len();
    if n == 0 {
        return false;
    }
    let mut i: usize = 0;
    while i < n
        invariant
            n == s@.len(),
            i <= n,
            forall|j: int| 0 <= j < i ==> is_extension_char(#[trigger] s@[j]),
        decreases n - i,
    {
        let c = s.get_char(i);
        if !(('a' <= c && c <= 'z') || ('A' <= c && c <= 'Z') || ('0' <= c && c <= '9')) {
            assert(!is_extension_char(s@[i as int]));
            return false;
        }
        i = i + 1;
    }
    true
}

/// The extension of the file that a URL points at, if it has a valid one.
pub fn extension_of_url(url: &str) -> (r: Option<&str>)
    ensures
        match r {
            Some(e) => url_extension(url@) == Some(e@),
            None => url_extension(url@) is None,
        },
{
    let path = text_before_first(url, '?', '#');
    let segment = text_after_last(path, '/');
    match crate::text::last_index_of(segment, '.') {
        None => {
            assert(!segment@.contains('.'));
            None
        },
        Some(i) => {
            assert(segment@[i as int] == '.');
            let ext = text_after_last(segment, '.');
            if is_valid_extension(ext) {
                Some(ext)
            } else {
                None
            }
        },
    }
}

/// The file name of an emoji with this name and extension.
pub fn make_file_name(name: &str, ext: Option<&str>) -> (r: String)
    ensures
        r@ == file_name(name@, match ext {
            Some(e) => Some(e@),
            None => None,
        }),
{
    match ext {
        Some(e) => {
            proof {
                reveal_strlit(".");
            }
            assert("."@ =~= seq!['.']);
            String::from_str(name).concat(".").concat(e)
        },
        None => String::from_str(name),
    }
}

/// The emoji name that an archive file name stands for.
pub fn parse_file_name(filename: &str) -> (r: Option<&str>)
    ensures
        match r {
            Some(n) => name_of_file(filename@) == Some(n@),
            None => name_of_file(filename@) is None,
        },
{
    let (stem, ext) = split_text_at_first(filename, '.');
    if !is_valid_name(stem) {
        return None;
    }
    match ext {
        Some(e) => {
            if is_valid_extension(e) {
                Some(stem)
            } else {
                None
            }
        },
        None => Some(stem),
    }
}

impl Archive {
    pub closed spec fn directory_spec(&self) -> Seq<char> {
        self.directory@
    }

    /// The path of a file of this name inside the archive directory.
    pub open spec fn path_spec(&self, filename: Seq<char>) -> Seq<char> {
        self.directory_spec() + "/"@ + filename
    }

    pub fn new(directory: String) -> (r: Archive)
        ensures
            r.directory_spec() == directory@,
    {
        Archive { directory }
    }

    pub fn directory(&self) -> (r: &str)
        ensures
            r@ == self.directory_spec(),
    {
        self.directory.as_str()
    }

    pub fn path_for(&self, filename: &str) -> (r: String)
        ensures
            r@ == self.path_spec(filename@),
    {
        self.directory.clone().concat("/").concat(filename)
    }

    /// The file name under which a record is archived; an error when its name
    /// cannot stand as a file name.
    pub fn filename_for(record: &EmojiRecord) -> (r: Result<String, ExportSkip>)
        ensures
            match r {
                Ok(f) => valid_name(record.name@) && f@ == record_file_name(*record),
                Err(ExportSkip::InvalidName { name }) => !valid_name(record.name@) && name@
                    == record.name@,
                Err(_) => false,
            },
    {
        if !is_valid_name(record.name.as_str()) {
            return Err(ExportSkip::InvalidName { name: record.name.clone() });
        }
        let ext = match &record.source {
            EmojiSource::Image(url) => extension_of_url(url.as_str()),
            EmojiSource::Alias(_) => None,
        };
        Ok(make_file_name(record.name.as_str(), ext))
    }

    /// What the export does with `record`: `r` is its download task, or why
    /// it is skipped.
    pub open spec fn download_outcome(&self, record: EmojiRecord, r: Result<DownloadTask, ExportSkip>) -> bool {
        match r {
            Ok(t) => {
                &&& valid_name(record.name@)
                &&& record.source is Image
                &&& t.name@ == record.name@
                &&& t.url@ == record.source->Image_0@
                &&& t.filename@ == record_file_name(record)
                &&& t.filepath@ == self.path_spec(record_file_name(record))
            },
            Err(ExportSkip::InvalidName { name }) => !valid_name(record.name@) && name@
                == record.name@,
            Err(ExportSkip::Alias { name, target }) => valid_name(record.name@)
                && record.source is Alias && name@ == record.name@ && target@
                == record.source->Alias_0@,
        }
    }

    /// What the export does with a record: where to fetch its image and
    /// where to store it; or why it is skipped.
    pub fn download_task(&self, record: &EmojiRecord) -> (r: Result<DownloadTask, ExportSkip>)
        ensures
            self.download_outcome(*record, r),
    {
        let filename = match Archive::filename_for(record) {
            Ok(f) => f,
            Err(e) => return Err(e),
        };
        match &record.source {
            EmojiSource::Alias(target) => Err(
                ExportSkip::Alias { name: record.name.clone(), target: target.clone() },
            ),
            EmojiSource::Image(url) => {
                let filepath = self.path_for(filename.as_str());
                Ok(
                    DownloadTask {
                        name: record.name.clone(),
                        url: url.clone(),
                        filename,
                        filepath,
                    },
                )
            },
        }
    }

    /// Reads one file name found in the archive directory as an emoji entry.
    /// A file outside the naming scheme is an error for that file alone: the
    /// caller reports it and goes on with the other files.
    pub fn entry_for(&self, filename: &str) -> (r: Result<ArchiveEntry, ScanError>)
        ensures
            match r {
                Ok(e) => name_of_file(filename@) == Some(e.name@) && e.filename@ == filename@
                    && e.filepath@ == self.path_spec(filename@),
                Err(ScanError::UnrecognisedFile { filename: f }) => name_of_file(filename@) is None
                    && f@ == filename@,
            },
    {
        match parse_file_name(filename) {
            Some(name) => Ok(
                ArchiveEntry {
                    name: String::from_str(name),
                    filename: String::from_str(filename),
                    filepath: self.path_for(filename),
                },
            ),
            None => Err(ScanError::UnrecognisedFile { filename: String::from_str(filename) }),
        }
    }
}

/// Writing a record twice is the same as writing it once with the final
/// content: the download tasks of the record, however often made, target one
/// path in the archive, so the second write replaces the first and the two
/// add exactly one file.
pub proof fn lemma_write_idempotent(
    archive: Archive,
    record: EmojiRecord,
    first_task: DownloadTask,
    second_task: DownloadTask,
    dir: DirectoryModel,
    first: Seq<u8>,
    second: Seq<u8>,
)
    requires
        archive.download_outcome(record, Ok(first_task)),
        archive.download_outcome(record, Ok(second_task)),
    ensures
        first_task.filepath@ == second_task.filepath@,
        after_write(after_write(dir, first_task, first), second_task, second) == after_write(
            dir,
            second_task,
            second,
        ),
        after_write(after_write(dir, first_task, first), second_task, second).dom()
            == dir.dom().insert(archive.path_spec(record_file_name(record))),
        after_write(after_write(dir, first_task, first), second_task, second)[archive.path_spec(
            record_file_name(record),
        )] == second,
{
    assert(after_write(after_write(dir, first_task, first), second_task, second) =~= after_write(
        dir,
        second_task,
        second,
    ));
}

/// The name read back from a record's archive file is the record's name.
pub proof fn lemma_file_name_round_trip(record: EmojiRecord)
    requires
        valid_name(record.name@),
    ensures
        name_of_file(record_file_name(record)) == Some(record.name@),
{
    let name = record.name@;
    assert forall|j: int| 0 <= j < name.len() implies name[j] != '.' by {
        assert(is_name_char(name[j]));
    }
    match record_extension(record) {
        Some(e) => {
            let tail = seq!['.'] + e;
            lemma_split_after_plain_head(name, tail, '.');
            assert(name + seq!['.'] + e =~= name + tail);
            assert(tail.drop_first() =~= e);
            assert(split_at_first(tail, '.') == (Seq::<char>::empty(), Some(e)));
            assert(name + Seq::<char>::empty() =~= name);
            assert(valid_extension(e));
        },
        None => {
            lemma_split_after_plain_head(name, Seq::<char>::empty(), '.');
            assert(name + Seq::<char>::empty() =~= name);
        },
    }
}

/// Two records with valid names share an archive file only when they share
/// a name: the archive never holds two files for one name, nor one file for two.
pub proof fn lemma_one_file_per_name(a: EmojiRecord, b: EmojiRecord)
    requires
        valid_name(a.name@),
        valid_name(b.name@),
        record_file_name(a) == record_file_name(b),
    ensures
        a.name@ == b.name@,
{
    lemma_file_name_round_trip(a);
    lemma_file_name_round_trip(b);
}

} // verus!

//! Downloading (and unpacking) one file.
use vstd::prelude::*;
use crate::config::{ParsedFileItem, url_file_name};
use crate::path::{file_name, join, join_spec};
use crate::text::{
    before_char, before_char_spec, concat, contains, contains_spec, ends_with, ends_with_spec,
    starts_with, starts_with_spec, to_owned,
};

verus! {

/// Downloads one file entry.
pub struct FileTask {
    pub item: ParsedFileItem,
}

/// How a downloaded archive is unpacked.
pub enum ArchiveKind {
    /// A bzip2-compressed tar archive.
    TarBz2,
    /// A zip archive.
    Zip,
}

/// The download that failed is retried: at most three times, and only when
/// its error mentions a timeout.
pub open spec fn should_retry_spec(retry_times: u32, error_text: Seq<char>) -> bool {
    retry_times < 3 && contains_spec(error_text, "timeout"@)
}

/// Zip entries that are never unpacked: macOS resource forks and Finder
/// metadata.
pub open spec fn zip_entry_skipped_spec(name: Seq<char>) -> bool {
    starts_with_spec(name, "__MACOSX"@) || ends_with_spec(name, ".DS_Store"@)
}

/// The top-level name an unpacked zip entry occupies (removed before
/// unpacking), unless the entry is never unpacked.
pub open spec fn zip_root_name_spec(name: Seq<char>) -> Option<Seq<char>> {
    let first = before_char_spec(name, '/');
    if !starts_with_spec(first, "__MACOSX"@) && !ends_with_spec(name, ".DS_Store"@) {
        Some(first)
    } else {
        None
    }
}

impl FileTask {
    /// A task downloading `item`.
    pub fn new(item: ParsedFileItem) -> (r: FileTask)
        ensures
            r.item == item,
    {
        FileTask { item }
    }

    /// The name the download is saved under.
    pub fn file_name(&self) -> (r: String)
        ensures
            r@ == url_file_name(self.item.url@),
    {
        let without_query = before_char(self.item.url.as_str(), '?');
        match file_name(without_query.as_str()) {
            Some(n) => n,
            None => to_owned("unknown"),
        }
    }

    /// Where the download is saved.
    pub fn file_path(&self) -> (r: String)
        ensures
            r@ == join_spec(self.item.dir@, url_file_name(self.item.url@)),
    {
        let name = self.file_name();
        join(self.item.dir.as_str(), name.as_str())
    }

    /// The URLs of the parts of a multipart download, in order: the entry's
    /// URL followed by each suffix.
    pub fn part_urls(&self) -> (r: Option<Vec<String>>)
        ensures
            r is Some <==> self.item.multipart is Some,
            r matches Some(urls) ==> urls@.len() == self.item.multipart->0@.len() && forall|k: int|
                0 <= k < urls@.len() ==> #[trigger] urls@[k]@ == self.item.url@
                    + self.item.multipart->0@[k]@,
    {
        match &self.item.multipart {
            None => None,
            Some(suffixes) => {
                let mut urls: Vec<String> = Vec::new();
                let mut i: usize = 0;
                while i < suffixes.len()
                    invariant
                        i <= suffixes.len(),
                        urls@.len() == i,
                        forall|k: int|
                            0 <= k < i ==> #[trigger] urls@[k]@ == self.item.url@ + suffixes@[k]@,
                    decreases suffixes.len() - i,
                {
                    urls.push(concat(self.item.url.as_str(), suffixes[i].as_str()));
                    i += 1;
                }
                Some(urls)
            },
        }
    }

    /// Whether a failed download is tried again.
    pub fn should_retry(retry_times: u32, error_text: &str) -> (r: bool)
        ensures
            r == should_retry_spec(retry_times, error_text@),
    {
        retry_times < 3 && contains(error_text, "timeout")
    }

    /// How the file at `file_path` is unpacked: by its `.tar.bz2` ending,
    /// otherwise as zip.
    pub fn archive_kind(file_path: &str) -> (r: ArchiveKind)
        ensures
            r is TarBz2 <==> ends_with_spec(file_path@, ".tar.bz2"@),
    {
        if ends_with(file_path, ".tar.bz2") {
            ArchiveKind::TarBz2
        } else {
            ArchiveKind::Zip
        }
    }

    /// Whether a zip entry is left out when unpacking.
    pub fn zip_entry_skipped(name: &str) -> (r: bool)
        ensures
            r == zip_entry_skipped_spec(name@),
    {
        starts_with(name, "__MACOSX") || ends_with(name, ".DS_Store")
    }

    /// The top-level name a zip entry unpacks into, if it is unpacked.
    pub fn zip_root_name(name: &str) -> (r: Option<String>)
        ensures
            crate::path::opt_view(r) == zip_root_name_spec(name@),
    {
        let first = before_char(name, '/');
        if !starts_with(first.as_str(), "__MACOSX") && !ends_with(name, ".DS_Store") {
            Some(first)
        } else {
            None
        }
    }

    /// Whether a zip entry's Unix mode marks a symbolic link
    /// (file type bits `0o170000` equal to `S_IFLNK`, `0o120000`).
    pub fn is_symlink_mode(mode: u32) -> (r: bool)
        ensures
            r == (mode & 0o170000u32 == 0o120000u32),
    {
        mode & 0o170000u32 == 0o120000u32
    }
}

} // verus!

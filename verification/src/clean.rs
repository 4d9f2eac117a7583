//! The report of a cleaning run.
use vstd::prelude::*;
use vstd::utf8::encode_utf8;
use crate::sorting::{SortKey, sort_by_key, sorted_by_key, same_per_key};
use crate::text::{decimal, to_decimal};
use crate::path_order::{path_key, path_key_of};

verus! {

/// A file that could not be processed, with the reason.
#[derive(Debug, Clone, Default)]
pub struct FileProcessError {
    /// Error message.
    pub message: String,
    /// Path of the file.
    pub path: String,
}

impl SortKey for String {
    open spec fn sort_key(&self) -> Seq<u8> {
        encode_utf8(self@)
    }

    fn key_bytes(&self) -> (k: Vec<u8>) {
        vstd::slice::slice_to_vec(self.as_str().as_bytes())
    }
}

/// Failed files are ordered by their paths as `Path`s compare: component
/// by component.
impl SortKey for FileProcessError {
    open spec fn sort_key(&self) -> Seq<u8> {
        path_key(encode_utf8(self.path@))
    }

    fn key_bytes(&self) -> (k: Vec<u8>) {
        path_key_of(self.path.as_str())
    }
}

/// The line of one failed file: its path, a tab, and the message.
pub open spec fn error_line(e: FileProcessError) -> Seq<char> {
    e.path@ + "\t"@ + e.message@
}

/// The report lines, for the removed files and the failed ones in the order
/// given.
pub open spec fn clean_lines(dry_run: bool, removed: Seq<String>, errored: Seq<FileProcessError>) -> Seq<Seq<char>> {
    (if removed.len() == 0 {
        seq!["No matching files found to remove."@]
    } else {
        seq![
            (if dry_run {
                "Files to be removed (Dry run): "@
            } else {
                "Removed files: "@
            }) + decimal(removed.len()),
        ] + removed.map_values(|s: String| s@)
    }) + (if errored.len() == 0 {
        seq![]
    } else {
        seq!["Errored files: "@ + decimal(errored.len()), "File Path\tError Message"@]
            + errored.map_values(|e: FileProcessError| error_line(e))
    })
}

pub(crate) fn labelled(label: &str, n: usize) -> (s: String)
    ensures
        s@ == label@ + decimal(n as nat),
{
    let mut s = label.to_owned();
    let d = to_decimal(n);
    s.append(d.as_str());
    s
}

/// The lines that report a cleaning run: the removed files (or those that
/// would be removed in a dry run) sorted as strings, then the failed files
/// sorted by path, component by component, each group under a line with its
/// count.
pub fn clean_report(dry_run: bool, removed: Vec<String>, errored: Vec<FileProcessError>) -> (lines: Vec<String>)
    ensures
        exists|r: Seq<String>, e: Seq<FileProcessError>|
            {
                &&& sorted_by_key(r)
                &&& same_per_key(r, removed@)
                &&& sorted_by_key(e)
                &&& same_per_key(e, errored@)
                &&& r.len() == removed@.len()
                &&& e.len() == errored@.len()
                &&& lines@.map_values(|s: String| s@) == clean_lines(dry_run, r, e)
            },
{
    let removed = sort_by_key(removed);
    let errored = sort_by_key(errored);
    let mut lines: Vec<String> = Vec::new();
    if removed.len() == 0 {
        lines.push(String::from_str("No matching files found to remove."));
    } else {
        if dry_run {
            lines.push(labelled("Files to be removed (Dry run): ", removed.len()));
        } else {
            lines.push(labelled("Removed files: ", removed.len()));
        }
        let mut i: usize = 0;
        while i < removed.len()
            invariant
                i <= removed@.len(),
                removed@.len() > 0,
                lines@.map_values(|s: String| s@) =~= seq![
                    (if dry_run {
                        "Files to be removed (Dry run): "@
                    } else {
                        "Removed files: "@
                    }) + decimal(removed@.len()),
                ] + removed@.take(i as int).map_values(|s: String| s@),
            decreases removed@.len() - i,
        {
            let ghost prev = lines@;
            lines.push(removed[i].clone());
            assert(lines@.map_values(|s: String| s@) =~= prev.map_values(|s: String| s@).push(removed@[i as int]@));
            assert(removed@.take(i + 1) =~= removed@.take(i as int).push(removed@[i as int]));
            i = i + 1;
        }
        assert(removed@.take(removed@.len() as int) =~= removed@);
    }
    let ghost head = lines@.map_values(|s: String| s@);
    if errored.len() > 0 {
        lines.push(labelled("Errored files: ", errored.len()));
        lines.push(String::from_str("File Path\tError Message"));
        let mut i: usize = 0;
        while i < errored.len()
            invariant
                i <= errored@.len(),
                lines@.map_values(|s: String| s@) =~= head + seq![
                    "Errored files: "@ + decimal(errored@.len()),
                    "File Path\tError Message"@,
                ] + errored@.take(i as int).map_values(|e: FileProcessError| error_line(e)),
            decreases errored@.len() - i,
        {
            let e = &errored[i];
            let mut line = e.path.clone();
            line.append("\t");
            line.append(e.message.as_str());
            let ghost prev = lines@;
            lines.push(line);
            assert(lines@.map_values(|s: String| s@) =~= prev.map_values(|s: String| s@).push(error_line(errored@[i as int])));
            assert(errored@.take(i + 1) =~= errored@.take(i as int).push(errored@[i as int]));
            i = i + 1;
        }
        assert(errored@.take(errored@.len() as int) =~= errored@);
    }
    assert(lines@.map_values(|s: String| s@) =~= clean_lines(dry_run, removed@, errored@));
    lines
}


/// The layout of a cleaning report, line by line: either the line saying
/// that nothing was removed, or a line with the number of removed files
/// followed by one line per removed file; then, whenever some removal
/// failed, whatever was removed, a line with the number of failures, the
/// column titles, and one line per failed file with its path and message.
pub proof fn lemma_clean_layout(dry_run: bool, removed: Seq<String>, errored: Seq<FileProcessError>)
    ensures
        ({
            let l = clean_lines(dry_run, removed, errored);
            let r: int = if removed.len() == 0 { 1int } else { 1 + removed.len() as int };
            &&& l.len() == r + (if errored.len() == 0 { 0 } else { 2 + errored.len() })
            &&& removed.len() == 0 ==> l[0] == "No matching files found to remove."@
            &&& removed.len() > 0 ==> l[0] == (if dry_run {
                "Files to be removed (Dry run): "@
            } else {
                "Removed files: "@
            }) + decimal(removed.len())
            &&& forall|i: int| 0 <= i < removed.len() ==> l[1 + i] == (#[trigger] removed[i])@
            &&& errored.len() > 0 ==> l[r] == "Errored files: "@ + decimal(errored.len())
            &&& errored.len() > 0 ==> l[r + 1] == "File Path\tError Message"@
            &&& forall|i: int|
                0 <= i < errored.len() ==> l[r + 2 + i] == (#[trigger] errored[i]).path@ + "\t"@
                    + errored[i].message@
        }),
{
    let l = clean_lines(dry_run, removed, errored);
    let head: Seq<Seq<char>> = if removed.len() == 0 {
        seq!["No matching files found to remove."@]
    } else {
        seq![
            (if dry_run {
                "Files to be removed (Dry run): "@
            } else {
                "Removed files: "@
            }) + decimal(removed.len()),
        ] + removed.map_values(|s: String| s@)
    };
    let tail: Seq<Seq<char>> = if errored.len() == 0 {
        seq![]
    } else {
        seq!["Errored files: "@ + decimal(errored.len()), "File Path\tError Message"@]
            + errored.map_values(|e: FileProcessError| error_line(e))
    };
    assert(l == head + tail);
    assert forall|i: int| 0 <= i < removed.len() implies l[1 + i] == (#[trigger] removed[i])@ by {
        assert(head[1 + i] == removed.map_values(|s: String| s@)[i]);
    }
    assert forall|i: int| 0 <= i < errored.len() implies l[head.len() + 2 + i] == (#[trigger] errored[i]).path@
        + "\t"@ + errored[i].message@ by {
        assert(tail[2 + i] == errored.map_values(|e: FileProcessError| error_line(e))[i]);
    }
}

} // verus!

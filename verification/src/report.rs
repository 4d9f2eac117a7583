//! The report of a compression run. The caller formats the two values that
//! are not whole numbers, each ratio and the elapsed time, as text.
use vstd::prelude::*;
use vstd::utf8::encode_utf8;
use crate::clean::{FileProcessError, error_line, labelled};
use crate::path_order::{path_key, path_key_of};
use crate::sorting::{SortKey, sort_by_key, sorted_by_key, same_per_key};
use crate::text::decimal;

verus! {

/// An output that was (or in a dry run would be) kept, with its ratio to
/// the original in percent, as text.
pub struct CompressedEntry {
    pub path: String,
    pub ratio: String,
}

/// A file that was skipped: an unchanged original, or an output that would
/// not have been smaller.
pub struct SkippedEntry {
    pub path: String,
}

impl SortKey for CompressedEntry {
    open spec fn sort_key(&self) -> Seq<u8> {
        path_key(encode_utf8(self.path@))
    }

    fn key_bytes(&self) -> (k: Vec<u8>) {
        path_key_of(self.path.as_str())
    }
}

impl SortKey for SkippedEntry {
    open spec fn sort_key(&self) -> Seq<u8> {
        path_key(encode_utf8(self.path@))
    }

    fn key_bytes(&self) -> (k: Vec<u8>) {
        path_key_of(self.path.as_str())
    }
}

/// Values that make one line of a report.
pub trait ReportLine {
    /// The line.
    spec fn line(&self) -> Seq<char>;

    /// The line, as text.
    fn line_text(&self) -> (s: String)
        ensures
            s@ == self.line(),
    ;
}

impl ReportLine for CompressedEntry {
    open spec fn line(&self) -> Seq<char> {
        self.ratio@ + "%\t"@ + self.path@
    }

    fn line_text(&self) -> (s: String) {
        let mut s = self.ratio.clone();
        s.append("%\t");
        s.append(self.path.as_str());
        s
    }
}

impl ReportLine for SkippedEntry {
    open spec fn line(&self) -> Seq<char> {
        self.path@
    }

    fn line_text(&self) -> (s: String) {
        self.path.clone()
    }
}

impl ReportLine for FileProcessError {
    open spec fn line(&self) -> Seq<char> {
        error_line(*self)
    }

    fn line_text(&self) -> (s: String) {
        let mut s = self.path.clone();
        s.append("\t");
        s.append(self.message.as_str());
        s
    }
}

/// The lines of a sequence of values.
pub open spec fn lines_of<T: ReportLine>(items: Seq<T>) -> Seq<Seq<char>> {
    items.map_values(|x: T| x.line())
}

/// The report lines, for the entries in the order given.
pub open spec fn compress_lines(
    dry_run: bool,
    elapsed: Seq<char>,
    compressed: Seq<CompressedEntry>,
    skipped: Seq<SkippedEntry>,
    errored: Seq<FileProcessError>,
) -> Seq<Seq<char>> {
    seq![
        "Compressed files:"@ + decimal(compressed.len()) + " Skipped files:"@ + decimal(skipped.len())
            + " Errored files:"@ + decimal(errored.len()) + " Elapsed time:"@ + elapsed,
        Seq::<char>::empty(),
    ] + (if compressed.len() == 0 {
        seq![]
    } else {
        seq![
            (if dry_run {
                "Files to be compressed (Dry run): "@
            } else {
                "Compressed files: "@
            }) + decimal(compressed.len()),
            "Ratio\tFile Path"@,
        ] + lines_of(compressed)
    }) + (if skipped.len() == 0 {
        seq![]
    } else {
        seq![Seq::<char>::empty(), "Skipped files: "@ + decimal(skipped.len())] + lines_of(skipped)
    }) + (if errored.len() == 0 {
        seq![]
    } else {
        seq![
            Seq::<char>::empty(),
            "Errored files: "@ + decimal(errored.len()),
            "File Path\tError Message"@,
        ] + lines_of(errored)
    })
}

fn append_lines<T: ReportLine>(lines: &mut Vec<String>, items: &Vec<T>)
    ensures
        final(lines)@.map_values(|s: String| s@) == old(lines)@.map_values(|s: String| s@) + lines_of(items@),
{
    let ghost start = old(lines)@.map_values(|s: String| s@);
    let mut i: usize = 0;
    while i < items.len()
        invariant
            i <= items@.len(),
            lines@.map_values(|s: String| s@) =~= start + lines_of(items@.take(i as int)),
        decreases items@.len() - i,
    {
        let ghost prev = lines@;
        lines.push(items[i].line_text());
        assert(lines@.map_values(|s: String| s@) =~= prev.map_values(|s: String| s@).push(items@[i as int].line()));
        assert(items@.take(i + 1) =~= items@.take(i as int).push(items@[i as int]));
        i = i + 1;
    }
    assert(items@.take(items@.len() as int) =~= items@);
}

fn push_line(lines: &mut Vec<String>, s: String)
    ensures
        final(lines)@.map_values(|t: String| t@) == old(lines)@.map_values(|t: String| t@).push(s@),
{
    lines.push(s);
    assert(final(lines)@.map_values(|t: String| t@) =~= old(lines)@.map_values(|t: String| t@).push(s@));
}

/// The lines that report a compression run: the counts and the elapsed
/// time, then the kept outputs with their ratios, the skipped files and the
/// failed files, each group sorted by path (component by component) under a
/// line with its count, and left out when empty.
pub fn compress_report(
    dry_run: bool,
    elapsed: &str,
    compressed: Vec<CompressedEntry>,
    skipped: Vec<SkippedEntry>,
    errored: Vec<FileProcessError>,
) -> (lines: Vec<String>)
    ensures
        exists|c: Seq<CompressedEntry>, s: Seq<SkippedEntry>, e: Seq<FileProcessError>|
            {
                &&& sorted_by_key(c) && same_per_key(c, compressed@) && c.len() == compressed@.len()
                &&& sorted_by_key(s) && same_per_key(s, skipped@) && s.len() == skipped@.len()
                &&& sorted_by_key(e) && same_per_key(e, errored@) && e.len() == errored@.len()
                &&& lines@.map_values(|l: String| l@) == compress_lines(dry_run, elapsed@, c, s, e)
            },
{
    let compressed = sort_by_key(compressed);
    let skipped = sort_by_key(skipped);
    let errored = sort_by_key(errored);
    let mut lines: Vec<String> = Vec::new();
    let mut head = labelled("Compressed files:", compressed.len());
    let skipped_count = labelled(" Skipped files:", skipped.len());
    let errored_count = labelled(" Errored files:", errored.len());
    head.append(skipped_count.as_str());
    head.append(errored_count.as_str());
    head.append(" Elapsed time:");
    head.append(elapsed);
    assert(head@ =~= "Compressed files:"@ + decimal(compressed@.len()) + " Skipped files:"@ + decimal(
        skipped@.len(),
    ) + " Errored files:"@ + decimal(errored@.len()) + " Elapsed time:"@ + elapsed@);
    push_line(&mut lines, head);
    let blank = String::new();
    assert(blank@ =~= Seq::<char>::empty());
    push_line(&mut lines, blank);
    let ghost part1 = lines@.map_values(|l: String| l@);
    assert(part1 =~= seq![
        "Compressed files:"@ + decimal(compressed@.len()) + " Skipped files:"@ + decimal(skipped@.len())
            + " Errored files:"@ + decimal(errored@.len()) + " Elapsed time:"@ + elapsed@,
        Seq::<char>::empty(),
    ]);
    if compressed.len() > 0 {
        if dry_run {
            push_line(&mut lines, labelled("Files to be compressed (Dry run): ", compressed.len()));
        } else {
            push_line(&mut lines, labelled("Compressed files: ", compressed.len()));
        }
        push_line(&mut lines, String::from_str("Ratio\tFile Path"));
        append_lines(&mut lines, &compressed);
    }
    let ghost part2 = lines@.map_values(|l: String| l@);
    assert(part2 =~= part1 + (if compressed@.len() == 0 {
        seq![]
    } else {
        seq![
            (if dry_run {
                "Files to be compressed (Dry run): "@
            } else {
                "Compressed files: "@
            }) + decimal(compressed@.len()),
            "Ratio\tFile Path"@,
        ] + lines_of(compressed@)
    }));
    if skipped.len() > 0 {
        push_line(&mut lines, String::new());
        push_line(&mut lines, labelled("Skipped files: ", skipped.len()));
        append_lines(&mut lines, &skipped);
    }
    let ghost part3 = lines@.map_values(|l: String| l@);
    assert(part3 =~= part2 + (if skipped@.len() == 0 {
        seq![]
    } else {
        seq![Seq::<char>::empty(), "Skipped files: "@ + decimal(skipped@.len())] + lines_of(skipped@)
    }));
    if errored.len() > 0 {
        push_line(&mut lines, String::new());
        push_line(&mut lines, labelled("Errored files: ", errored.len()));
        push_line(&mut lines, String::from_str("File Path\tError Message"));
        append_lines(&mut lines, &errored);
    }
    assert(lines@.map_values(|l: String| l@) =~= part3 + (if errored@.len() == 0 {
        seq![]
    } else {
        seq![
            Seq::<char>::empty(),
            "Errored files: "@ + decimal(errored@.len()),
            "File Path\tError Message"@,
        ] + lines_of(errored@)
    }));
    assert(lines@.map_values(|l: String| l@) =~= compress_lines(
        dry_run,
        elapsed@,
        compressed@,
        skipped@,
        errored@,
    ));
    lines
}


/// The layout of a compression report, line by line: the summary with the
/// number of kept, skipped and failed entries and the elapsed time, and an
/// empty line; then each non-empty group under a line with its own count:
/// the kept outputs (with the column titles, one line per output with its
/// ratio and path), the skipped files (after an empty line, one line per
/// path), and the failed files (after an empty line, with the column
/// titles, one line per path and message).
pub proof fn lemma_report_layout(
    dry_run: bool,
    elapsed: Seq<char>,
    c: Seq<CompressedEntry>,
    s: Seq<SkippedEntry>,
    e: Seq<FileProcessError>,
)
    ensures
        ({
            let l = compress_lines(dry_run, elapsed, c, s, e);
            let k: int = 2 + (if c.len() == 0 { 0int } else { 2 + c.len() as int });
            let m: int = k + (if s.len() == 0 { 0int } else { 2 + s.len() as int });
            &&& l.len() == m + (if e.len() == 0 { 0 } else { 3 + e.len() })
            &&& l[0] == "Compressed files:"@ + decimal(c.len()) + " Skipped files:"@ + decimal(s.len())
                + " Errored files:"@ + decimal(e.len()) + " Elapsed time:"@ + elapsed
            &&& l[1] == Seq::<char>::empty()
            &&& c.len() > 0 ==> l[2] == (if dry_run {
                "Files to be compressed (Dry run): "@
            } else {
                "Compressed files: "@
            }) + decimal(c.len())
            &&& c.len() > 0 ==> l[3] == "Ratio\tFile Path"@
            &&& forall|i: int| 0 <= i < c.len() ==> l[4 + i] == (#[trigger] c[i]).ratio@ + "%\t"@ + c[i].path@
            &&& s.len() > 0 ==> l[k] == Seq::<char>::empty()
            &&& s.len() > 0 ==> l[k + 1] == "Skipped files: "@ + decimal(s.len())
            &&& forall|i: int| 0 <= i < s.len() ==> l[k + 2 + i] == (#[trigger] s[i]).path@
            &&& e.len() > 0 ==> l[m] == Seq::<char>::empty()
            &&& e.len() > 0 ==> l[m + 1] == "Errored files: "@ + decimal(e.len())
            &&& e.len() > 0 ==> l[m + 2] == "File Path\tError Message"@
            &&& forall|i: int|
                0 <= i < e.len() ==> l[m + 3 + i] == (#[trigger] e[i]).path@ + "\t"@ + e[i].message@
        }),
{
    let l = compress_lines(dry_run, elapsed, c, s, e);
    let a: Seq<Seq<char>> = seq![
        "Compressed files:"@ + decimal(c.len()) + " Skipped files:"@ + decimal(s.len())
            + " Errored files:"@ + decimal(e.len()) + " Elapsed time:"@ + elapsed,
        Seq::<char>::empty(),
    ];
    let b: Seq<Seq<char>> = if c.len() == 0 {
        seq![]
    } else {
        seq![
            (if dry_run {
                "Files to be compressed (Dry run): "@
            } else {
                "Compressed files: "@
            }) + decimal(c.len()),
            "Ratio\tFile Path"@,
        ] + lines_of(c)
    };
    let x: Seq<Seq<char>> = if s.len() == 0 {
        seq![]
    } else {
        seq![Seq::<char>::empty(), "Skipped files: "@ + decimal(s.len())] + lines_of(s)
    };
    let y: Seq<Seq<char>> = if e.len() == 0 {
        seq![]
    } else {
        seq![
            Seq::<char>::empty(),
            "Errored files: "@ + decimal(e.len()),
            "File Path\tError Message"@,
        ] + lines_of(e)
    };
    assert(l == a + b + x + y);
    let k: int = 2 + (if c.len() == 0 { 0int } else { 2 + c.len() as int });
    let m: int = k + (if s.len() == 0 { 0int } else { 2 + s.len() as int });
    assert((a + b).len() == k);
    assert((a + b + x).len() == m);
    assert forall|i: int| 0 <= i < c.len() implies l[4 + i] == (#[trigger] c[i]).ratio@ + "%\t"@ + c[i].path@ by {
        assert(b[2 + i] == lines_of(c)[i]);
        assert((a + b)[4 + i] == b[2 + i]);
        assert((a + b + x)[4 + i] == (a + b)[4 + i]);
    }
    assert forall|i: int| 0 <= i < s.len() implies l[k + 2 + i] == (#[trigger] s[i]).path@ by {
        assert(x[2 + i] == lines_of(s)[i]);
        assert((a + b + x)[k + 2 + i] == x[2 + i]);
    }
    assert forall|i: int| 0 <= i < e.len() implies l[m + 3 + i] == (#[trigger] e[i]).path@ + "\t"@
        + e[i].message@ by {
        assert(y[3 + i] == lines_of(e)[i]);
    }
    if s.len() > 0 {
        assert((a + b + x)[k] == x[0]);
        assert((a + b + x)[k + 1] == x[1]);
    }
    if c.len() > 0 {
        assert((a + b)[2] == b[0]);
        assert((a + b)[3] == b[1]);
    }
}

} // verus!

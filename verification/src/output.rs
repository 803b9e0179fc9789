//! The lines of a listing: one line for each file, and around them, unless the
//! listing is to be quiet, how many files were found.

use crate::decimal::{decimal_text, push_decimal};
use crate::file_lister::FileInfo;
use vstd::prelude::*;

verus! {

/// What stands in the place of a version that a file does not have: fifteen
/// spaces.
pub open spec fn blank_version() -> Seq<char> {
    Seq::new(15, |i: int| ' ')
}

/// The line of a file: its path; before it, where versions are shown, its
/// version and a space. A version is written as it is, whatever its length; in
/// the place of a version that the file does not have stands the blank.
pub open spec fn line_text(info: FileInfo, include_version: bool) -> Seq<char> {
    if include_version {
        (match info.version {
            Some(version) => version.text(),
            None => blank_version(),
        }) + seq![' '] + info.path@
    } else {
        info.path@
    }
}

/// The lines of the files, in their order.
pub open spec fn listing_text(files: Seq<FileInfo>, include_version: bool) -> Seq<Seq<char>> {
    files.map_values(|info: FileInfo| line_text(info, include_version))
}

/// The line that says how many files were found.
pub open spec fn summary_text(count: nat) -> Seq<char> {
    "Found "@ + decimal_text(count) + " files."@
}

/// The lines of a report: the lines of the files and, unless the report is
/// quiet, before them the summary and an empty line, and behind them an empty
/// line and the summary once more.
pub open spec fn report_text(files: Seq<FileInfo>, include_version: bool, quiet: bool) -> Seq<
    Seq<char>,
> {
    if quiet {
        listing_text(files, include_version)
    } else {
        seq![summary_text(files.len()), Seq::empty()] + listing_text(files, include_version)
            + seq![Seq::empty(), summary_text(files.len())]
    }
}

/// The lines that open a run: which directory is searched, and where help is
/// to be had; then an empty line.
pub open spec fn header_text(directory: Seq<char>) -> Seq<Seq<char>> {
    seq![
        "List files in \""@ + directory + "\" and its subdirectories."@,
        "Use \"flist --help\" to print help."@,
        Seq::empty(),
    ]
}

/// What the lines say, line by line.
pub open spec fn texts_of(lines: Seq<String>) -> Seq<Seq<char>> {
    lines.map_values(|line: String| line@)
}

/// Writes the line of one file.
pub fn format_line(info: &FileInfo, include_version: bool) -> (line: String)
    ensures
        line@ == line_text(*info, include_version),
{
    if !include_version {
        return info.path.clone();
    }
    proof {
        reveal_strlit("               ");
        reveal_strlit(" ");
    }
    assert("               "@ =~= blank_version());
    assert(" "@ =~= seq![' ']);
    let mut line = match &info.version {
        Some(version) => version.to_string(),
        None => {
            let mut blank = String::new();
            blank.append("               ");
            blank
        },
    };
    line.append(" ");
    line.append(info.path.as_str());
    line
}

/// Writes the line that says how many files were found.
pub fn format_summary(count: usize) -> (line: String)
    ensures
        line@ == summary_text(count as nat),
{
    let mut line = String::new();
    line.append("Found ");
    push_decimal(&mut line, count as u64);
    line.append(" files.");
    line
}

/// Writes the lines that open a run.
pub fn header_lines(directory: &str) -> (lines: Vec<String>)
    ensures
        texts_of(lines@) == header_text(directory@),
{
    let mut first = String::new();
    first.append("List files in \"");
    first.append(directory);
    first.append("\" and its subdirectories.");
    let mut second = String::new();
    second.append("Use \"flist --help\" to print help.");
    let mut lines: Vec<String> = Vec::new();
    lines.push(first);
    lines.push(second);
    lines.push(String::new());
    assert(texts_of(lines@) =~= header_text(directory@));
    lines
}

/// Writes the lines of the files, as they go into a file.
pub fn listing_lines(files: &[FileInfo], include_version: bool) -> (lines: Vec<String>)
    ensures
        texts_of(lines@) == listing_text(files@, include_version),
{
    let mut lines: Vec<String> = Vec::new();
    let mut i: usize = 0;
    while i < files.len()
        invariant
            i <= files@.len(),
            texts_of(lines@) == listing_text(files@.take(i as int), include_version),
        decreases files@.len() - i,
    {
        let line = format_line(&files[i], include_version);
        let ghost before = lines@;
        lines.push(line);
        assert(texts_of(lines@) =~= texts_of(before).push(line@));
        assert(listing_text(files@.take(i + 1), include_version) =~= listing_text(
            files@.take(i as int),
            include_version,
        ).push(line_text(files@[i as int], include_version)));
        i += 1;
    }
    assert(files@.take(files@.len() as int) =~= files@);
    lines
}

/// Writes the lines of a report, as they are shown to the user.
pub fn report_lines(files: &[FileInfo], include_version: bool, quiet: bool) -> (lines: Vec<
    String,
>)
    ensures
        texts_of(lines@) == report_text(files@, include_version, quiet),
{
    let mut listing = listing_lines(files, include_version);
    if quiet {
        return listing;
    }
    let ghost listed = listing@;
    let mut lines: Vec<String> = Vec::new();
    lines.push(format_summary(files.len()));
    lines.push(String::new());
    lines.append(&mut listing);
    lines.push(String::new());
    lines.push(format_summary(files.len()));
    assert(texts_of(lines@) =~= report_text(files@, include_version, quiet));
    lines
}

} // verus!

//! A first look at a delimited text file: how many columns and rows it
//! has, and what its header names.

use crate::paths::{file_name, file_name_spec};
use crate::text::{
    all_trimmed, decimal, decimal_digits, split_on, split_trimmed, texts, trim_end, trim_trailing,
};
use vstd::prelude::*;

verus! {

/// Why a file could not be scanned.
#[derive(Debug, PartialEq, Eq)]
pub enum Error {
    FileNotFound(String),
    FileIsDir(String),
    FileIsEmpty,
    FileIsNotReadable,
    ColumnsIndexOutOfBounds { index: usize, max: usize },
}

/// The text that describes an error to a reader.
pub open spec fn message_spec(e: Error) -> Seq<char> {
    match e {
        Error::FileNotFound(path) => "File not found: "@ + path@,
        Error::FileIsDir(path) => path@ + " is a directory, not a file"@,
        Error::FileIsEmpty => "File is empty"@,
        Error::FileIsNotReadable => "File is not readable"@,
        Error::ColumnsIndexOutOfBounds { index, max } => "Columns index out of bounds (index: "@
            + decimal_digits(index as nat) + ", max: "@ + decimal_digits(max as nat) + ")"@,
    }
}

impl Error {
    /// The text that describes this error to a reader.
    pub fn message(&self) -> (r: String)
        ensures
            r@ == message_spec(*self),
    {
        match self {
            Error::FileNotFound(path) => {
                let mut out = String::from_str("File not found: ");
                out.append(path.as_str());
                out
            },
            Error::FileIsDir(path) => {
                let mut out = path.clone();
                out.append(" is a directory, not a file");
                out
            },
            Error::FileIsEmpty => String::from_str("File is empty"),
            Error::FileIsNotReadable => String::from_str("File is not readable"),
            Error::ColumnsIndexOutOfBounds { index, max } => {
                let mut out = String::from_str("Columns index out of bounds (index: ");
                out.append(decimal(*index as u64).as_str());
                out.append(", max: ");
                out.append(decimal(*max as u64).as_str());
                out.append(")");
                out
            },
        }
    }
}

/// What a scan found.
#[derive(Debug, Default)]
pub struct FileInfo {
    pub path: String,
    pub name: String,
    pub separator: char,
    pub columns: usize,
    pub fields: Option<Vec<String>>,
    pub rows: usize,
}

/// The fields of a file's first line: the line without its trailing white
/// space, split at the separator, each piece trimmed.
pub open spec fn first_line_fields(first_line: Seq<char>, sep: char) -> Seq<Seq<char>> {
    all_trimmed(split_on(trim_end(first_line), sep))
}

/// The number of data rows: every line but a header.
pub open spec fn row_count(following_lines: nat, has_header: bool) -> nat {
    if has_header {
        following_lines
    } else {
        following_lines + 1
    }
}

/// What is known of the file at `filepath` from its first line, as read
/// with its line end, and the number of lines after it. A directory and a
/// file without a first line are rejected.
pub fn scan_file(
    filepath: &str,
    is_dir: bool,
    first_line: &str,
    following_lines: usize,
    sep: char,
    has_header: bool,
) -> (r: Result<FileInfo, Error>)
    requires
        following_lines < usize::MAX,
    ensures
        is_dir ==> r is Err && r->Err_0 is FileIsDir && r->Err_0->FileIsDir_0@ == filepath@,
        !is_dir && first_line@.len() == 0 ==> r is Err && r->Err_0 is FileIsEmpty,
        !is_dir && first_line@.len() > 0 ==> r is Ok && ({
            let info = r->Ok_0;
            &&& info.path@ == filepath@
            &&& info.name@ == file_name_spec(filepath@)
            &&& info.separator == sep
            &&& info.columns == first_line_fields(first_line@, sep).len()
            &&& has_header ==> info.fields is Some && texts(info.fields->Some_0@)
                == first_line_fields(first_line@, sep)
            &&& !has_header ==> info.fields is None
            &&& info.rows == row_count(following_lines as nat, has_header)
        }),
{
    if is_dir {
        return Err(Error::FileIsDir(String::from_str(filepath)));
    }
    if first_line.unicode_len() == 0 {
        return Err(Error::FileIsEmpty);
    }
    let kept = trim_trailing(first_line);
    let first_line_fields = split_trimmed(kept.as_str(), sep);
    let columns = first_line_fields.len();
    let fields = if has_header {
        Some(first_line_fields)
    } else {
        None
    };
    let rows: usize = if has_header {
        following_lines
    } else {
        following_lines + 1
    };
    Ok(
        FileInfo {
            path: String::from_str(filepath),
            name: file_name(filepath),
            separator: sep,
            columns,
            fields,
            rows,
        },
    )
}

} // verus!

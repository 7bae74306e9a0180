use vstd::prelude::*;
use crate::error::PipelineError;

verus! {

/// The file formats that hold a table.
#[derive(Clone, Copy, Debug, PartialEq, Eq, Structural)]
pub enum FileFormat {
    /// Delimited text whose first row names the columns.
    Csv,
    /// The binary columnar format.
    Parquet,
}

/// Whether two strings hold the same characters.
pub fn same_text(left: &str, right: &str) -> (same: bool)
    ensures
        same == (left@ == right@),
{
    left.to_owned() == right.to_owned()
}

impl FileFormat {
    /// The format that a file extension names, if it names one. The
    /// comparison is exact: `CSV` names none.
    pub open spec fn of_extension(extension: Option<Seq<char>>) -> Option<FileFormat> {
        match extension {
            Some(text) => if text == "csv"@ {
                Some(FileFormat::Csv)
            } else if text == "parquet"@ {
                Some(FileFormat::Parquet)
            } else {
                None
            },
            None => None,
        }
    }

    /// Picks the format from the extension of a path, given without its dot.
    /// A path without an extension, or with any other, is refused.
    pub fn from_extension(extension: Option<&str>) -> (r: Result<FileFormat, PipelineError>)
        ensures
            match r {
                Ok(format) => Self::of_extension(extension_view(extension)) == Some(format),
                Err(e) => e == PipelineError::UnsupportedFormat
                    && Self::of_extension(extension_view(extension)).is_none(),
            },
    {
        match extension {
            Some(text) => {
                if same_text(text, "csv") {
                    Ok(FileFormat::Csv)
                } else if same_text(text, "parquet") {
                    Ok(FileFormat::Parquet)
                } else {
                    Err(PipelineError::UnsupportedFormat)
                }
            },
            None => Err(PipelineError::UnsupportedFormat),
        }
    }
}

/// An optional string as the characters it holds.
pub open spec fn extension_view(extension: Option<&str>) -> Option<Seq<char>> {
    match extension {
        Some(text) => Some(text@),
        None => None,
    }
}

} // verus!

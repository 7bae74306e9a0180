use vstd::prelude::*;

verus! {

/// Why a run of the pipeline stopped.
#[derive(Clone, Copy, Debug, PartialEq, Eq, Structural)]
pub enum PipelineError {
    /// The file's extension names no format that can be read.
    UnsupportedFormat,
    /// The file could not be read, or what it holds is not a table.
    Io,
    /// A column that the pipeline needs is absent or holds another type.
    Schema,
    /// An argument is outside what the pipeline accepts.
    Validation,
}

impl PipelineError {
    /// A stable small number for each kind of failure, for use as an exit code.
    pub open spec fn code_of(self) -> u8 {
        match self {
            PipelineError::UnsupportedFormat => 2,
            PipelineError::Io => 3,
            PipelineError::Schema => 4,
            PipelineError::Validation => 5,
        }
    }

    /// The number of this failure.
    pub fn code(&self) -> (code: u8)
        ensures
            code == self.code_of(),
            2 <= code <= 5,
    {
        match self {
            PipelineError::UnsupportedFormat => 2,
            PipelineError::Io => 3,
            PipelineError::Schema => 4,
            PipelineError::Validation => 5,
        }
    }

    /// The text shown to the user for each kind of failure.
    pub open spec fn message_of(self) -> Seq<char> {
        match self {
            PipelineError::UnsupportedFormat => "Unsupported file extension. Use .csv or .parquet."@,
            PipelineError::Io => "The file could not be read as a table."@,
            PipelineError::Schema => "A required column is missing or has the wrong type."@,
            PipelineError::Validation => "An argument is out of range."@,
        }
    }

    /// The text of this failure.
    pub fn message(&self) -> (text: String)
        ensures
            text@ == self.message_of(),
    {
        match self {
            PipelineError::UnsupportedFormat => "Unsupported file extension. Use .csv or .parquet.".to_owned(),
            PipelineError::Io => "The file could not be read as a table.".to_owned(),
            PipelineError::Schema => "A required column is missing or has the wrong type.".to_owned(),
            PipelineError::Validation => "An argument is out of range.".to_owned(),
        }
    }
}

} // verus!

use vstd::prelude::*;

verus! {

#[verifier::external_type_specification]
#[verifier::external_body]
pub struct ExZipError(zip::result::ZipError);

#[verifier::external_type_specification]
#[verifier::external_body]
pub struct ExIoError(std::io::Error);

/// A document extracted from an upload archive.
#[derive(Debug)]
pub struct ExtractedDocument {
    /// Path of the file inside the archive.
    pub source_path: String,
    /// The file's text.
    pub content: String,
    /// Decided by the file's extension.
    pub content_type: ContentType,
    /// The page's URL, when the file name allows it to be reconstructed.
    pub origin_url: Option<String>,
}

/// An extracted document as plain values.
pub struct DocumentView {
    pub source_path: Seq<char>,
    pub content: Seq<char>,
    pub content_type: ContentType,
    pub origin_url: Option<Seq<char>>,
}

impl View for ExtractedDocument {
    type V = DocumentView;

    open spec fn view(&self) -> DocumentView {
        DocumentView {
            source_path: self.source_path@,
            content: self.content@,
            content_type: self.content_type,
            origin_url: match self.origin_url {
                Some(u) => Some(u@),
                None => None,
            },
        }
    }
}

/// Failure to extract the documents of an archive.
#[derive(Debug)]
pub enum ExtractError {
    /// The archive, or one of its entries, cannot be read as a zip archive.
    Zip(zip::result::ZipError),
    /// Reading a nested archive failed.
    Io(std::io::Error),
    /// A document is not valid UTF-8 text (or could not be read).
    InvalidUtf8 { path: String },
}

/// Which extraction failure happened, as plain values.
pub enum ExtractFailure {
    Zip,
    Io,
    InvalidUtf8(Seq<char>),
}

impl ExtractError {
    pub open spec fn failure(self) -> ExtractFailure {
        match self {
            ExtractError::Zip(_) => ExtractFailure::Zip,
            ExtractError::Io(_) => ExtractFailure::Io,
            ExtractError::InvalidUtf8 { path } => ExtractFailure::InvalidUtf8(path@),
        }
    }
}

/// Kind of a document extracted from an upload, decided by its file extension.
#[derive(Debug, Clone, Copy, PartialEq, Eq, Structural)]
pub enum ContentType {
    Markdown,
    Csv,
}

impl ContentType {
    /// The name under which the content type is stored and reported.
    pub open spec fn name(self) -> Seq<char> {
        match self {
            ContentType::Markdown => "markdown"@,
            ContentType::Csv => "csv"@,
        }
    }

    pub fn as_str(self) -> (s: &'static str)
        ensures
            s@ == self.name(),
    {
        match self {
            ContentType::Markdown => "markdown",
            ContentType::Csv => "csv",
        }
    }
}

} // verus!

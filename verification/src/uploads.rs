//! Knowledge-base uploads: the multipart form, and the progress events that
//! the ingest pipeline streams back.
use vstd::prelude::*;
use vstd::string::*;

use crate::api::ApiError;
use crate::ingest::ExtractedDocument;
use crate::text::{chars_of, chars_match_at, push_str, same_text};

verus! {

broadcast use vstd::string::group_string_axioms;

/// Kind of upload.
#[derive(Debug, Clone, Copy, PartialEq, Eq, Structural)]
pub enum UploadType {
    NotionExport,
}

/// The name of an upload type in forms and records.
pub open spec fn upload_type_name(t: UploadType) -> Seq<char> {
    match t {
        UploadType::NotionExport => "notion_export"@,
    }
}

impl UploadType {
    pub fn as_str(self) -> (s: &'static str)
        ensures
            s@ == upload_type_name(self),
    {
        match self {
            UploadType::NotionExport => "notion_export",
        }
    }

    /// Reads the `upload_type` form field.
    pub fn from_field(value: &str) -> (r: Result<UploadType, ApiError>)
        ensures
            r is Ok <==> value@ == "notion_export"@,
            r matches Ok(t) ==> t == UploadType::NotionExport,
            r is Err ==> r->Err_0.is_bad_request_with("unsupported upload_type: "@ + value@),
    {
        let v = chars_of(value);
        proof {
            reveal_strlit("notion_export");
        }
        let w = chars_of("notion_export");
        let same = v.len() == w.len() && chars_match_at(&v, &w, 0);
        proof {
            if v@.len() == w@.len() {
                assert(v@.subrange(0, w@.len() as int) =~= v@);
            }
        }
        if same {
            Ok(UploadType::NotionExport)
        } else {
            let mut msg = String::from_str("unsupported upload_type: ");
            push_str(&mut msg, value);
            Err(ApiError::BadRequest(msg))
        }
    }
}

/// The fields of an upload form.
#[derive(Debug)]
pub struct CreateUploadRequest {
    /// Display name of the upload.
    pub name: String,
    pub upload_type: UploadType,
    /// The uploaded archive.
    pub file: Vec<u8>,
}

/// The fields of an upload form read so far; a later field of the same name
/// replaces an earlier one.
pub struct UploadForm {
    pub upload_type: Option<UploadType>,
    pub name: Option<String>,
    pub file: Option<Vec<u8>>,
}

impl UploadForm {
    pub fn new() -> (f: Self)
        ensures
            f.upload_type is None && f.name is None && f.file is None,
    {
        UploadForm { upload_type: None, name: None, file: None }
    }

    /// The complete form, or the first missing field (checked in the order
    /// `upload_type`, `name`, `file`).
    pub fn finish(self) -> (r: Result<CreateUploadRequest, ApiError>)
        ensures
            r is Ok <==> self.upload_type is Some && self.name is Some && self.file is Some,
            r matches Ok(q) ==> Some(q.upload_type) == self.upload_type && Some(q.name)
                == self.name && Some(q.file) == self.file,
            self.upload_type is None ==> r->Err_0.is_bad_request_with(
                "missing field: upload_type"@,
            ),
            self.upload_type is Some && self.name is None ==> r->Err_0.is_bad_request_with(
                "missing field: name"@,
            ),
            self.upload_type is Some && self.name is Some && self.file is None
                ==> r->Err_0.is_bad_request_with("missing field: file"@),
    {
        let upload_type = match self.upload_type {
            Some(t) => t,
            None => return Err(ApiError::BadRequest(String::from_str("missing field: upload_type"))),
        };
        let name = match self.name {
            Some(n) => n,
            None => return Err(ApiError::BadRequest(String::from_str("missing field: name"))),
        };
        let file = match self.file {
            Some(f) => f,
            None => return Err(ApiError::BadRequest(String::from_str("missing field: file"))),
        };
        Ok(CreateUploadRequest { name, upload_type, file })
    }
}

/// Sent once the upload is recorded.
#[derive(Debug)]
pub struct UploadCreatedEvent {
    pub id: String,
    pub name: String,
    pub upload_type: UploadType,
    pub status: String,
}

/// Sent once the archive's documents are known.
#[derive(Debug)]
pub struct ExtractingEvent {
    pub documents_found: usize,
}

/// Sent for each document before it is stored.
#[derive(Debug)]
pub struct DocumentExtractedEvent {
    pub index: usize,
    pub source_path: String,
    pub content_type: String,
    pub content_length: usize,
}

/// Sent once a document's chunks are stored.
#[derive(Debug)]
pub struct ChunkingEvent {
    pub document_index: usize,
    pub source_path: String,
    pub chunks_created: usize,
}

/// Sent when the whole upload is processed.
#[derive(Debug)]
pub struct CompletedEvent {
    pub id: String,
    pub status: String,
    pub total_documents: usize,
    pub total_chunks: usize,
}

/// Sent when the pipeline fails.
#[derive(Debug)]
pub struct ErrorEvent {
    pub message: String,
}

/// The event announcing a new upload, still processing.
pub fn upload_created_event(id: String, name: String, upload_type: UploadType) -> (e: UploadCreatedEvent)
    ensures
        e.id == id && e.name == name && e.upload_type == upload_type && e.status@ == "processing"@,
{
    UploadCreatedEvent { id, name, upload_type, status: String::from_str("processing") }
}

/// The event announcing document `index` of the upload, with its length in
/// bytes.
pub fn document_extracted_event(index: usize, doc: &ExtractedDocument) -> (e: DocumentExtractedEvent)
    ensures
        e.index == index,
        e.source_path@ == doc.source_path@,
        e.content_type@ == doc.content_type.name(),
        e.content_length == crate::search::byte_len(doc.content@),
{
    DocumentExtractedEvent {
        index,
        source_path: doc.source_path.clone(),
        content_type: String::from_str(doc.content_type.as_str()),
        content_length: doc.content.as_str().as_bytes().len(),
    }
}

/// Running totals of an upload's ingest pipeline.
pub struct UploadProgress {
    pub documents: usize,
    pub total_chunks: usize,
}

impl UploadProgress {
    pub fn new(documents: usize) -> (p: Self)
        ensures
            p.documents == documents && p.total_chunks == 0,
    {
        UploadProgress { documents, total_chunks: 0 }
    }

    /// Records that document `index` was split into `chunks_created` chunks,
    /// and returns the event announcing it.
    pub fn document_chunked(&mut self, index: usize, source_path: &str, chunks_created: usize) -> (e: ChunkingEvent)
        requires
            old(self).total_chunks + chunks_created <= usize::MAX,
        ensures
            final(self).total_chunks == old(self).total_chunks + chunks_created,
            final(self).documents == old(self).documents,
            e.document_index == index && e.source_path@ == source_path@ && e.chunks_created
                == chunks_created,
    {
        self.total_chunks = self.total_chunks + chunks_created;
        ChunkingEvent { document_index: index, source_path: String::from_str(source_path), chunks_created }
    }

    /// The event announcing that the upload `id` is complete, with the totals.
    pub fn completed_event(&self, id: String) -> (e: CompletedEvent)
        ensures
            e.id == id && e.status@ == "completed"@ && e.total_documents == self.documents
                && e.total_chunks == self.total_chunks,
    {
        CompletedEvent {
            id,
            status: String::from_str("completed"),
            total_documents: self.documents,
            total_chunks: self.total_chunks,
        }
    }
}

/// The upload form fields that are read; others are skipped.
#[derive(Debug, Clone, Copy, PartialEq, Eq, Structural)]
pub enum FormField {
    UploadType,
    Name,
    File,
    Other,
}

/// Which form field a multipart part named `name` fills.
pub open spec fn form_field_for(name: Option<Seq<char>>) -> FormField {
    match name {
        Some(n) => if n == "upload_type"@ {
            FormField::UploadType
        } else if n == "name"@ {
            FormField::Name
        } else if n == "file"@ {
            FormField::File
        } else {
            FormField::Other
        },
        None => FormField::Other,
    }
}

/// Decides which form field a multipart part fills, by its name.
pub fn form_field(name: Option<&str>) -> (f: FormField)
    ensures
        f == form_field_for(match name {
            Some(n) => Some(n@),
            None => None,
        }),
{
    match name {
        Some(n) => if same_text(n, "upload_type") {
            FormField::UploadType
        } else if same_text(n, "name") {
            FormField::Name
        } else if same_text(n, "file") {
            FormField::File
        } else {
            FormField::Other
        },
        None => FormField::Other,
    }
}

/// The message of the error event sent when the pipeline fails.
pub fn error_event(message: String) -> (e: ErrorEvent)
    ensures
        e.message == message,
{
    ErrorEvent { message }
}

/// The event announcing how many documents the archive holds.
pub fn extracting_event(documents_found: usize) -> (e: ExtractingEvent)
    ensures
        e.documents_found == documents_found,
{
    ExtractingEvent { documents_found }
}

} // verus!

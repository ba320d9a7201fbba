//! Notion export archives: finding the documents inside (nested archives
//! included) and reconstructing each page's URL from its file name.
use std::io::Read;

use vstd::prelude::*;
use vstd::string::*;
use vstd::utf8::{decode_utf8, valid_utf8};

use crate::ingest::{ContentType, DocumentView, ExtractError, ExtractFailure, ExtractedDocument};
use crate::search::byte_len;
use crate::text::{chars_of, chars_match_at, ends_with, is_blank, str_ends_with, push_str, trim, trim_str};

verus! {

broadcast use vstd::string::group_string_axioms;

/// Whether byte `b` is left as it is by URL encoding: ASCII letters, digits
/// and `-`, `_`, `.`, `~`.
pub open spec fn url_safe_byte(b: u8) -> bool {
    (0x30 <= b <= 0x39) || (0x41 <= b <= 0x5a) || (0x61 <= b <= 0x7a) || b == 0x2d || b == 0x2e
        || b == 0x5f || b == 0x7e
}

/// Upper-case hexadecimal digit of `d < 16`.
pub open spec fn hex_digit(d: u8) -> char {
    if d < 10 { ((0x30 + d) as u8) as char } else { ((0x41 - 10 + d) as u8) as char }
}

/// The percent-encoding of `bytes`: every byte that is not URL-safe becomes
/// `%` and its two upper-case hexadecimal digits.
pub open spec fn percent_encoded(bytes: Seq<u8>) -> Seq<char>
    decreases bytes.len(),
{
    if bytes.len() == 0 {
        Seq::empty()
    } else {
        let b = bytes[0];
        (if url_safe_byte(b) {
            seq![b as char]
        } else {
            seq!['%', hex_digit(b / 16), hex_digit(b % 16)]
        }) + percent_encoded(bytes.drop_first())
    }
}

/// Calls `urlencoding::encode`, which percent-encodes the UTF-8 bytes of `s`
/// as `percent_encoded` states.
#[verifier::external_body]
fn url_encode(s: &str) -> (r: String)
    ensures
        r@ == percent_encoded(s.spec_bytes()),
{
    urlencoding::encode(s).into_owned()
}

/// The position of the last `c` in `s`.
pub open spec fn last_index_of(s: Seq<char>, c: char) -> Option<nat>
    decreases s.len(),
{
    if s.len() == 0 {
        None
    } else if s.last() == c {
        Some((s.len() - 1) as nat)
    } else {
        last_index_of(s.drop_last(), c)
    }
}

pub proof fn lemma_last_index_bound(s: Seq<char>, c: char)
    ensures
        last_index_of(s, c) matches Some(i) ==> i < s.len() && s[i as int] == c,
    decreases s.len(),
{
    if s.len() > 0 && s.last() != c {
        lemma_last_index_bound(s.drop_last(), c);
    }
}

/// Finds the last `c` in `v`.
pub fn find_last(v: &Vec<char>, c: char) -> (r: Option<usize>)
    ensures
        match (r, last_index_of(v@, c)) {
            (Some(a), Some(b)) => a as nat == b,
            (None, None) => true,
            _ => false,
        },
{
    let mut j = v.len();
    assert(v@.take(j as int) =~= v@);
    while j > 0
        invariant
            j <= v@.len(),
            last_index_of(v@, c) == last_index_of(v@.take(j as int), c),
        decreases j,
    {
        let ghost t = v@.take(j as int);
        assert(t.drop_last() =~= v@.take(j - 1));
        if v[j - 1] == c {
            return Some(j - 1);
        }
        j = j - 1;
    }
    None
}

/// Whether `c` is an ASCII hexadecimal digit.
pub open spec fn is_hex_char(c: char) -> bool {
    ('0' <= c <= '9') || ('a' <= c <= 'f') || ('A' <= c <= 'F')
}

/// Whether every character of `s` is an ASCII hexadecimal digit.
fn all_hex(s: &str) -> (b: bool)
    ensures
        b == all_hex_chars(s@),
{
    let v = chars_of(s);
    let n = v.len();
    let mut k: usize = 0;
    while k < n
        invariant
            k <= n,
            n == v@.len(),
            v@ == s@,
            forall|m: int| 0 <= m < k ==> is_hex_char(#[trigger] v@[m]),
        decreases n - k,
    {
        let c = v[k];
        if !(('0' <= c && c <= '9') || ('a' <= c && c <= 'f') || ('A' <= c && c <= 'F')) {
            assert(!is_hex_char(s@[k as int]));
            return false;
        }
        k = k + 1;
    }
    true
}

/// The file name at the end of a path in an archive.
pub open spec fn file_name_of(path: Seq<char>) -> Seq<char> {
    match last_index_of(path, '/') {
        Some(i) => path.skip((i + 1) as int),
        None => path,
    }
}

/// Whether every character of `s` is an ASCII hexadecimal digit.
pub open spec fn all_hex_chars(s: Seq<char>) -> bool {
    forall|k: int| 0 <= k < s.len() ==> is_hex_char(#[trigger] s[k])
}

/// The name of an export file without its `.md` or `.csv` extension.
pub open spec fn document_stem(file: Seq<char>) -> Option<Seq<char>> {
    if ends_with(file, ".md"@) {
        Some(file.subrange(0, file.len() - 3))
    } else if ends_with(file, ".csv"@) {
        Some(file.subrange(0, file.len() - 4))
    } else {
        None
    }
}

/// The page URL for a page `name` and a page `id`: the id must be 32
/// hexadecimal digits.
pub open spec fn page_url(name: Seq<char>, id: Seq<char>) -> Option<Seq<char>> {
    if byte_len(id) != 32 || !all_hex_chars(id) {
        None
    } else {
        Some("https://notion.so/"@ + percent_encoded(encode_utf8_of(name)) + "-"@ + id)
    }
}

/// The page URL for a file stem `<page name> <page id>` of at least 33 bytes.
pub open spec fn stem_url(stem: Seq<char>) -> Option<Seq<char>> {
    if byte_len(stem) < 33 {
        None
    } else {
        match last_index_of(stem, ' ') {
            None => None,
            Some(sp) => page_url(stem.subrange(0, sp as int), trim(stem.skip((sp + 1) as int))),
        }
    }
}

/// The Notion page URL of an export file, when its name has the form
/// `<page name> <32 hexadecimal digits>.md` (or `.csv`):
/// `https://notion.so/<URL-encoded page name>-<page id>`.
pub open spec fn notion_url(path: Seq<char>) -> Option<Seq<char>> {
    match document_stem(file_name_of(path)) {
        None => None,
        Some(stem) => stem_url(stem),
    }
}

/// The UTF-8 encoding of `s`.
pub open spec fn encode_utf8_of(s: Seq<char>) -> Seq<u8> {
    vstd::utf8::encode_utf8(s)
}

/// Reconstructs the Notion page URL of an export file; see `notion_url`.
pub fn notion_url_from_path(path: &str) -> (r: Option<String>)
    ensures
        match (r, notion_url(path@)) {
            (Some(a), Some(b)) => a@ == b,
            (None, None) => true,
            _ => false,
        },
{
    let pv = chars_of(path);
    proof {
        lemma_last_index_bound(path@, '/');
    }
    let file: &str = match find_last(&pv, '/') {
        Some(i) => {
            let n = pv.len();
            assert(i < n);
            path.substring_char(i + 1, n)
        },
        None => path,
    };
    proof {
        if last_index_of(path@, '/') is Some {
            assert(file@ =~= path@.skip((last_index_of(path@, '/')->Some_0 + 1) as int));
        }
    }
    let fl = file.unicode_len();
    let stem: &str = if str_ends_with(file, ".md") {
        proof { reveal_strlit(".md"); }
        file.substring_char(0, fl - 3)
    } else if str_ends_with(file, ".csv") {
        proof { reveal_strlit(".csv"); }
        file.substring_char(0, fl - 4)
    } else {
        return None;
    };
    if stem.as_bytes().len() < 33 {
        return None;
    }
    let sv = chars_of(stem);
    let sp = match find_last(&sv, ' ') {
        Some(i) => i,
        None => return None,
    };
    proof {
        lemma_last_index_bound(stem@, ' ');
    }
    let name_part = stem.substring_char(0, sp);
    let id = trim_str(stem.substring_char(sp + 1, sv.len()));
    assert(stem@.subrange(sp + 1, sv@.len() as int) =~= stem@.skip(sp + 1));
    if id.as_bytes().len() != 32 {
        return None;
    }
    if !all_hex(id) {
        return None;
    }
    let mut url = String::from_str("https://notion.so/");
    let encoded = url_encode(name_part);
    push_str(&mut url, encoded.as_str());
    push_str(&mut url, "-");
    push_str(&mut url, id);
    Some(url)
}

/// What `ZipArchive::new` and `ZipArchive::len` give for the archive bytes
/// `data`: the number of entries, or `None` when the bytes are not a
/// readable archive. A function of the bytes alone.
pub uninterp spec fn zip_entry_count(data: Seq<u8>) -> Option<nat>;

/// What `ZipArchive::by_index(i)` with `ZipFile::name` and
/// `ZipFile::is_dir` give for entry `i` of the archive bytes `data`: its path
/// and whether it is a directory, or `None` when the entry cannot be read.
pub uninterp spec fn zip_entry_header(data: Seq<u8>, i: nat) -> Option<(Seq<char>, bool)>;

/// What `ZipArchive::by_index(i)` with `Read::read_to_end` give for entry `i`
/// of the archive bytes `data`: its uncompressed bytes, or `None` when they
/// cannot be read.
pub uninterp spec fn zip_entry_contents(data: Seq<u8>, i: nat) -> Option<Seq<u8>>;

/// Opens the archive in `data` and counts its entries.
#[verifier::external_body]
fn zip_count(data: &[u8]) -> (r: Result<usize, zip::result::ZipError>)
    ensures
        match r {
            Ok(n) => zip_entry_count(data@) == Some(n as nat),
            Err(_) => zip_entry_count(data@) is None,
        },
{
    match zip::ZipArchive::new(std::io::Cursor::new(data)) {
        Ok(archive) => Ok(archive.len()),
        Err(e) => Err(e),
    }
}

/// Reads the path and the directory flag of entry `i` of the archive in `data`.
#[verifier::external_body]
fn zip_header(data: &[u8], i: usize) -> (r: Result<(String, bool), zip::result::ZipError>)
    ensures
        match r {
            Ok(h) => zip_entry_header(data@, i as nat) == Some((h.0@, h.1)),
            Err(_) => zip_entry_header(data@, i as nat) is None,
        },
{
    let mut archive = match zip::ZipArchive::new(std::io::Cursor::new(data)) {
        Ok(a) => a,
        Err(e) => return Err(e),
    };
    let entry = match archive.by_index(i) {
        Ok(f) => f,
        Err(e) => return Err(e),
    };
    let name = match entry.name() {
        Ok(n) => n.to_string(),
        Err(e) => return Err(e),
    };
    Ok((name, entry.is_dir()))
}

/// Reads the uncompressed bytes of entry `i` of the archive in `data`.
#[verifier::external_body]
fn zip_contents(data: &[u8], i: usize) -> (r: Result<Vec<u8>, std::io::Error>)
    ensures
        match r {
            Ok(b) => zip_entry_contents(data@, i as nat) == Some(b@),
            Err(_) => zip_entry_contents(data@, i as nat) is None,
        },
{
    let mut archive = match zip::ZipArchive::new(std::io::Cursor::new(data)) {
        Ok(a) => a,
        Err(e) => return Err(std::io::Error::other(e)),
    };
    let mut entry = match archive.by_index(i) {
        Ok(f) => f,
        Err(e) => return Err(std::io::Error::other(e)),
    };
    let mut buf = Vec::new();
    entry.read_to_end(&mut buf).map(|_| buf)
}

/// Calls `String::from_utf8`, which fails exactly when the bytes are not
/// valid UTF-8, and otherwise holds the characters they encode.
#[verifier::external_body]
fn utf8_text(bytes: Vec<u8>) -> (r: Option<String>)
    ensures
        r is Some <==> valid_utf8(bytes@),
        r matches Some(s) ==> s@ == decode_utf8(bytes@),
{
    String::from_utf8(bytes).ok()
}

/// The depth to which nested archives are opened: as deep as a `usize` can
/// count. While a nested archive is read, the bytes of every archive around
/// it stay in memory, and each is at least one byte long, so a chain of
/// nested archives that can be held in memory never reaches this depth.
pub const MAX_ARCHIVE_NESTING: usize = usize::MAX;

/// The content type that a file's extension gives it, if it is a document.
pub open spec fn document_type(path: Seq<char>) -> Option<ContentType> {
    if ends_with(path, ".md"@) {
        Some(ContentType::Markdown)
    } else if ends_with(path, ".csv"@) {
        Some(ContentType::Csv)
    } else {
        None
    }
}

/// `prefix` put in front of the documents of `rest`, or `rest`'s failure.
pub open spec fn prepend_documents(
    prefix: Seq<DocumentView>,
    rest: Result<Seq<DocumentView>, ExtractFailure>,
) -> Result<Seq<DocumentView>, ExtractFailure> {
    match rest {
        Ok(r) => Ok(prefix + r),
        Err(e) => Err(e),
    }
}

/// The documents of an archive `data`, in entry order, with nested archives
/// (`.zip` entries) opened in place, up to `depth` further levels: each
/// non-directory `.md` or `.csv` entry whose text is not blank becomes a
/// document. Reading stops at the first failure.
pub open spec fn archive_documents(data: Seq<u8>, depth: nat) -> Result<Seq<DocumentView>, ExtractFailure>
    decreases depth, 1nat, 0nat,
{
    match zip_entry_count(data) {
        None => Err(ExtractFailure::Zip),
        Some(n) => entries_documents(data, 0, n, depth),
    }
}

/// The documents of entries `i..n` of the archive `data`; see
/// `archive_documents`.
pub open spec fn entries_documents(data: Seq<u8>, i: nat, n: nat, depth: nat) -> Result<Seq<DocumentView>, ExtractFailure>
    decreases depth, 0nat, n - i,
{
    if i >= n {
        Ok(Seq::empty())
    } else {
        let rest = entries_documents(data, i + 1, n, depth);
        match zip_entry_header(data, i) {
            None => Err(ExtractFailure::Zip),
            Some(header) => {
                let name = header.0;
                if header.1 {
                    rest
                } else if ends_with(name, ".zip"@) {
                    match zip_entry_contents(data, i) {
                        None => Err(ExtractFailure::Io),
                        Some(bytes) => {
                            if depth == 0 {
                                rest
                            } else {
                                match archive_documents(bytes, (depth - 1) as nat) {
                                    Err(e) => Err(e),
                                    Ok(inner) => prepend_documents(inner, rest),
                                }
                            }
                        },
                    }
                } else {
                    match document_type(name) {
                        None => rest,
                        Some(ct) => match zip_entry_contents(data, i) {
                            None => Err(ExtractFailure::InvalidUtf8(name)),
                            Some(bytes) => if !valid_utf8(bytes) {
                                Err(ExtractFailure::InvalidUtf8(name))
                            } else if trim(decode_utf8(bytes)).len() == 0 {
                                rest
                            } else {
                                prepend_documents(
                                    seq![
                                        DocumentView {
                                            source_path: name,
                                            content: decode_utf8(bytes),
                                            content_type: ct,
                                            origin_url: notion_url(name),
                                        },
                                    ],
                                    rest,
                                )
                            },
                        },
                    }
                }
            },
        }
    }
}

/// Whether the archives nested in `data` go at most `depth` levels deep: each
/// readable `.zip` entry that is not a directory is itself nested at most
/// `depth - 1` levels deep.
pub open spec fn nesting_within(data: Seq<u8>, depth: nat) -> bool
    decreases depth, 1nat, 0nat,
{
    match zip_entry_count(data) {
        None => true,
        Some(n) => entries_nesting_within(data, 0, n, depth),
    }
}

/// `nesting_within` for the entries `i..n` of the archive `data`.
pub open spec fn entries_nesting_within(data: Seq<u8>, i: nat, n: nat, depth: nat) -> bool
    decreases depth, 0nat, n - i,
{
    if i >= n {
        true
    } else {
        let here = match zip_entry_header(data, i) {
            Some(header) => if !header.1 && ends_with(header.0, ".zip"@) {
                match zip_entry_contents(data, i) {
                    Some(bytes) => if depth == 0 {
                        false
                    } else {
                        nesting_within(bytes, (depth - 1) as nat)
                    },
                    None => true,
                }
            } else {
                true
            },
            None => true,
        };
        here && entries_nesting_within(data, i + 1, n, depth)
    }
}

proof fn lemma_entries_bound_irrelevant(data: Seq<u8>, i: nat, n: nat, d: nat, d2: nat)
    requires
        entries_nesting_within(data, i, n, d),
        d <= d2,
    ensures
        entries_documents(data, i, n, d) == entries_documents(data, i, n, d2),
    decreases d, 0nat, n - i,
{
    if i < n {
        lemma_entries_bound_irrelevant(data, i + 1, n, d, d2);
        match zip_entry_header(data, i) {
            Some(header) => {
                if !header.1 && ends_with(header.0, ".zip"@) {
                    match zip_entry_contents(data, i) {
                        Some(bytes) => {
                            lemma_archive_bound_irrelevant(bytes, (d - 1) as nat, (d2 - 1) as nat);
                        },
                        None => {},
                    }
                }
            },
            None => {},
        }
    }
}

proof fn lemma_archive_bound_irrelevant(data: Seq<u8>, d: nat, d2: nat)
    requires
        nesting_within(data, d),
        d <= d2,
    ensures
        archive_documents(data, d) == archive_documents(data, d2),
    decreases d, 1nat, 0nat,
{
    match zip_entry_count(data) {
        None => {},
        Some(n) => lemma_entries_bound_irrelevant(data, 0, n, d, d2),
    }
}

/// Opening nested archives deeper changes nothing once their nesting is
/// within the bound: an archive whose archives nest at most `d` levels deep
/// gives the same documents, or the same failure, with any larger bound. So
/// `MAX_ARCHIVE_NESTING` only matters for chains too long to hold in memory.
pub proof fn lemma_nesting_bound_irrelevant(data: Seq<u8>, d: nat, d2: nat)
    requires
        nesting_within(data, d),
        d <= d2,
    ensures
        archive_documents(data, d) == archive_documents(data, d2),
{
    lemma_archive_bound_irrelevant(data, d, d2);
}

/// Whether an extraction outcome is the one the specification gives.
pub open spec fn extraction_matches(
    r: Result<Vec<ExtractedDocument>, ExtractError>,
    s: Result<Seq<DocumentView>, ExtractFailure>,
) -> bool {
    match (r, s) {
        (Ok(docs), Ok(views)) => docs@.map_values(|d: ExtractedDocument| d@) == views,
        (Err(e), Err(f)) => e.failure() == f,
        _ => false,
    }
}

fn extract_archive(data: &[u8], depth: usize) -> (r: Result<Vec<ExtractedDocument>, ExtractError>)
    ensures
        extraction_matches(r, archive_documents(data@, depth as nat)),
    decreases depth,
{
    let n = match zip_count(data) {
        Ok(n) => n,
        Err(e) => return Err(ExtractError::Zip(e)),
    };
    let mut documents: Vec<ExtractedDocument> = Vec::new();
    let mut i: usize = 0;
    while i < n
        invariant
            i <= n,
            zip_entry_count(data@) == Some(n as nat),
            archive_documents(data@, depth as nat) == prepend_documents(
                documents@.map_values(|d: ExtractedDocument| d@),
                entries_documents(data@, i as nat, n as nat, depth as nat),
            ),
        decreases n - i,
    {
        let ghost before = documents@.map_values(|d: ExtractedDocument| d@);
        let ghost rest = entries_documents(data@, (i + 1) as nat, n as nat, depth as nat);
        let (name, is_dir) = match zip_header(data, i) {
            Ok(h) => h,
            Err(e) => return Err(ExtractError::Zip(e)),
        };
        if is_dir {
            i = i + 1;
            continue;
        }
        if str_ends_with(name.as_str(), ".zip") {
            let bytes = match zip_contents(data, i) {
                Ok(b) => b,
                Err(e) => return Err(ExtractError::Io(e)),
            };
            if depth > 0 {
                let inner = match extract_archive(bytes.as_slice(), depth - 1) {
                    Ok(d) => d,
                    Err(e) => return Err(e),
                };
                let ghost inner_views = inner@.map_values(|d: ExtractedDocument| d@);
                let mut inner = inner;
                documents.append(&mut inner);
                proof {
                    assert(documents@.map_values(|d: ExtractedDocument| d@) =~= before + inner_views);
                    match rest {
                        Ok(r) => assert(before + (inner_views + r) =~= (before + inner_views) + r),
                        Err(_) => {},
                    }
                }
            }
            i = i + 1;
            continue;
        }
        let content_type = if str_ends_with(name.as_str(), ".md") {
            ContentType::Markdown
        } else if str_ends_with(name.as_str(), ".csv") {
            ContentType::Csv
        } else {
            i = i + 1;
            continue;
        };
        let bytes = match zip_contents(data, i) {
            Ok(b) => b,
            Err(_) => return Err(ExtractError::InvalidUtf8 { path: name }),
        };
        let text = match utf8_text(bytes) {
            Some(t) => t,
            None => return Err(ExtractError::InvalidUtf8 { path: name }),
        };
        if is_blank(text.as_str()) {
            i = i + 1;
            continue;
        }
        let origin_url = notion_url_from_path(name.as_str());
        let doc = ExtractedDocument { source_path: name, content: text, content_type, origin_url };
        let ghost dv = doc@;
        documents.push(doc);
        proof {
            assert(documents@.map_values(|d: ExtractedDocument| d@) =~= before.push(dv));
            match rest {
                Ok(r) => assert(before + (seq![dv] + r) =~= before.push(dv) + r),
                Err(_) => {},
            }
        }
        i = i + 1;
    }
    proof {
        assert(prepend_documents(
            documents@.map_values(|d: ExtractedDocument| d@),
            Ok(Seq::empty()),
        ) == Ok::<Seq<DocumentView>, ExtractFailure>(documents@.map_values(|d: ExtractedDocument| d@) + Seq::empty()));
        assert(documents@.map_values(|d: ExtractedDocument| d@) + Seq::<DocumentView>::empty() =~= documents@.map_values(|d: ExtractedDocument| d@));
    }
    Ok(documents)
}

/// Extracts the documents of a Notion export archive, opening nested
/// archives in place, however deep they are nested (up to
/// `MAX_ARCHIVE_NESTING`, which no archive held in memory reaches); see
/// `archive_documents`.
pub fn extract_from_zip(data: &[u8]) -> (r: Result<Vec<ExtractedDocument>, ExtractError>)
    ensures
        extraction_matches(r, archive_documents(data@, MAX_ARCHIVE_NESTING as nat)),
{
    extract_archive(data, MAX_ARCHIVE_NESTING)
}

/// The document that a `.md` or `.csv` entry named `name` with text `text`
/// becomes.
pub open spec fn entry_document(name: Seq<char>, text: Seq<char>) -> DocumentView {
    DocumentView {
        source_path: name,
        content: text,
        content_type: if ends_with(name, ".md"@) {
            ContentType::Markdown
        } else {
            ContentType::Csv
        },
        origin_url: notion_url(name),
    }
}

proof fn lemma_document_names_are_not_archives(name: Seq<char>)
    requires
        ends_with(name, ".md"@) || ends_with(name, ".csv"@),
    ensures
        !ends_with(name, ".zip"@),
        ends_with(name, ".csv"@) ==> !ends_with(name, ".md"@),
{
    reveal_strlit(".md");
    reveal_strlit(".csv");
    reveal_strlit(".zip");
    let n = name.len() as int;
    assert(".zip"@[1] == 'z' && ".csv"@[1] == 'c' && ".md"@[0] == '.');
    if ends_with(name, ".md"@) {
        assert(name[n - 3] == name.subrange(n - 3, n)[0]);
        assert(name[n - 3] == '.');
    }
    if ends_with(name, ".zip"@) {
        assert(name[n - 3] == name.subrange(n - 4, n)[1]);
        assert(name[n - 3] == 'z');
    }
    if ends_with(name, ".csv"@) {
        assert(name[n - 3] == name.subrange(n - 4, n)[1]);
        assert(name[n - 3] == 'c');
    }
}

/// Every document entry is extracted, whatever its path: an entry that is
/// not a directory, whose name ends in `.md` or `.csv` (with or without
/// folders before it), and whose UTF-8 text is not blank, becomes a document
/// with that name and text, placed before the documents of the entries after
/// it.
pub proof fn lemma_document_entry_extracted(
    data: Seq<u8>,
    i: nat,
    n: nat,
    depth: nat,
    name: Seq<char>,
    bytes: Seq<u8>,
)
    requires
        i < n,
        zip_entry_header(data, i) == Some((name, false)),
        ends_with(name, ".md"@) || ends_with(name, ".csv"@),
        zip_entry_contents(data, i) == Some(bytes),
        valid_utf8(bytes),
        trim(decode_utf8(bytes)).len() > 0,
    ensures
        entries_documents(data, i, n, depth) == prepend_documents(
            seq![entry_document(name, decode_utf8(bytes))],
            entries_documents(data, i + 1, n, depth),
        ),
{
    lemma_document_names_are_not_archives(name);
}

/// Entries that are neither documents nor archives add nothing: a directory,
/// or an entry whose name ends in none of `.md`, `.csv` and `.zip`, leaves the
/// documents of the entries after it as they are.
pub proof fn lemma_other_entry_skipped(data: Seq<u8>, i: nat, n: nat, depth: nat, name: Seq<char>, is_dir: bool)
    requires
        i < n,
        zip_entry_header(data, i) == Some((name, is_dir)),
        is_dir || (!ends_with(name, ".md"@) && !ends_with(name, ".csv"@) && !ends_with(name, ".zip"@)),
    ensures
        entries_documents(data, i, n, depth) == entries_documents(data, i + 1, n, depth),
{
}

} // verus!

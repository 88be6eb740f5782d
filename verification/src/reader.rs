//! The decoder: from the bytes of a container to a [`Schema`].

use crate::bigendian::{lemma_be_value_bound, lemma_pow256_values, read_be};
use crate::error::{ErrorView, IoErrorKind, ParserError};
use crate::json::{descriptor_from_json, install_from_json};
use crate::layout::{
    bin_at, blob_at, bytes_at, decode, decode_at, entries_at, install_of, name_of, number_at,
    payload_at, text_to_end, SENTINEL, TAG_BIN, TAG_DAT, TAG_ODAT,
};
use crate::schema::{blobs, AppFileType, BinStruct, InstallerOptions, Schema};
use crate::text::string_from_utf8;
use crate::VER;
use std::collections::HashMap;
use vstd::prelude::*;

verus! {

broadcast use vstd::std_specs::hash::group_hash_axioms;

/// Whether the outcome `got` of a decoding step is the outcome `want` that the
/// layout prescribes: the same content on success, the same kind of error on
/// failure.
pub open spec fn agrees<T: View>(got: Result<T, ParserError>, want: Result<T::V, ErrorView>) -> bool {
    match (got, want) {
        (Ok(v), Ok(w)) => v@ == w,
        (Err(e), Err(k)) => e@ == k,
        _ => false,
    }
}

/// Reads the big-endian number in the `width` bytes at `pos`. The second
/// component is the position behind what was read.
pub fn number(data: &[u8], pos: usize, width: usize) -> (r: (Result<u64, ParserError>, usize))
    requires
        width <= 8,
    ensures
        r.1 == number_at(data@, pos as int, width as nat).end,
        match (r.0, number_at(data@, pos as int, width as nat).result) {
            (Ok(v), Ok(w)) => v == w,
            (Err(e), Err(k)) => e@ == k,
            _ => false,
        },
{
    let total: usize = data.len();
    if pos > total || width > total - pos {
        (Err(ParserError::IoError(IoErrorKind::UnexpectedEof)), pos)
    } else {
        (Ok(read_be(data, pos, width)), pos + width)
    }
}

/// Copies the `count` bytes at `pos`. The second component is the position
/// behind what was read; a count that reaches beyond the input is an error
/// and reads nothing.
pub fn take(data: &[u8], pos: usize, count: u64) -> (r: (Result<Vec<u8>, ParserError>, usize))
    ensures
        r.1 == bytes_at(data@, pos as int, count as nat).end,
        agrees(r.0, bytes_at(data@, pos as int, count as nat).result),
{
    let total: usize = data.len();
    if pos > total || count > (total - pos) as u64 {
        return (Err(ParserError::IoError(IoErrorKind::UnexpectedEof)), pos);
    }
    let n: usize = count as usize;
    let mut out: Vec<u8> = Vec::new();
    let mut i: usize = 0;
    while i < n
        invariant
            i <= n,
            pos + n <= data@.len(),
            data@.len() == total,
            out@ == data@.subrange(pos as int, pos + i),
        decreases n - i,
    {
        out.push(data[pos + i]);
        i += 1;
    }
    (Ok(out), pos + n)
}

/// Reads a length-prefixed byte string at `pos`.
pub fn blob(data: &[u8], pos: usize) -> (r: (Result<Vec<u8>, ParserError>, usize))
    ensures
        r.1 == blob_at(data@, pos as int).end,
        agrees(r.0, blob_at(data@, pos as int).result),
{
    match number(data, pos, 8) {
        (Ok(len), end) => take(data, end, len),
        (Err(e), _) => (Err(e), pos),
    }
}

/// Reads the entries of a binary package from `pos` up to the sentinel.
pub fn entries(data: &[u8], pos: usize) -> (r: (Result<HashMap<u8, Vec<u8>>, ParserError>, usize))
    ensures
        r.1 == entries_at(data@, pos as int, Map::empty()).end,
        match (r.0, entries_at(data@, pos as int, Map::empty()).result) {
            (Ok(m), Ok(w)) => blobs(m@) == w,
            (Err(e), Err(k)) => e@ == k,
            _ => false,
        },
{
    let total: usize = data.len();
    let mut found: HashMap<u8, Vec<u8>> = HashMap::new();
    let mut at: usize = pos;
    assert(blobs(found@) =~= Map::<u8, Seq<u8>>::empty());
    loop
        invariant
            data@.len() == total,
            entries_at(data@, at as int, blobs(found@)) == entries_at(
                data@,
                pos as int,
                Map::empty(),
            ),
        decreases total - at,
    {
        if at >= total {
            return (Err(ParserError::IoError(IoErrorKind::UnexpectedEof)), at);
        }
        let id: u8 = data[at];
        if id == SENTINEL {
            return (Ok(found), at + 1);
        }
        let ghost before = found@;
        match blob(data, at + 1) {
            (Ok(bytes), end) => {
                found.insert(id, bytes);
                assert(blobs(found@) =~= blobs(before).insert(id, bytes@));
                at = end;
            },
            (Err(e), end) => {
                return (Err(e), end);
            },
        }
    }
}

/// What becomes of the install options that `serde_json` read from a
/// non-empty install field: the options, or the error as a
/// [`ParserError::SerdeParseError`].
pub fn install_parsed(parsed: Result<InstallerOptions, serde_json::Error>) -> (r: Result<
    InstallerOptions,
    ParserError,
>)
    ensures
        match parsed {
            Ok(o) => r == Ok::<InstallerOptions, ParserError>(o),
            Err(e) => r == Err::<InstallerOptions, ParserError>(ParserError::SerdeParseError(e)),
        },
{
    match parsed {
        Ok(o) => Ok(o),
        Err(e) => Err(ParserError::from(e)),
    }
}

/// The install options that the bytes of an install field stand for.
pub fn install(field: Vec<u8>) -> (r: Result<InstallerOptions, ParserError>)
    ensures
        agrees(r, install_of(field@)),
{
    if field.len() == 0 {
        Ok(InstallerOptions::default())
    } else {
        match string_from_utf8(field) {
            None => Err(ParserError::Invalid),
            Some(text) => install_parsed(install_from_json(text.as_str())),
        }
    }
}

/// The name that the bytes of a name field stand for.
pub fn name(field: Vec<u8>) -> (r: Result<String, ParserError>)
    ensures
        agrees(r, name_of(field@)),
{
    if field.len() == 0 {
        Ok(String::new())
    } else {
        match string_from_utf8(field) {
            None => Err(ParserError::Invalid),
            Some(text) => Ok(text),
        }
    }
}

/// Reads the body of a binary package at `pos`.
pub fn bin(data: &[u8], pos: usize) -> (r: (Result<BinStruct, ParserError>, usize))
    ensures
        r.1 == bin_at(data@, pos as int).end,
        agrees(r.0, bin_at(data@, pos as int).result),
{
    let (found, end) = entries(data, pos);
    let found = match found {
        Ok(found) => found,
        Err(e) => {
            return (Err(e), end);
        },
    };
    let (icon, end) = blob(data, end);
    let icon = match icon {
        Ok(icon) => icon,
        Err(e) => {
            return (Err(e), end);
        },
    };
    let (options, end) = blob(data, end);
    let options = match options {
        Ok(field) => match install(field) {
            Ok(options) => options,
            Err(e) => {
                return (Err(e), end);
            },
        },
        Err(e) => {
            return (Err(e), end);
        },
    };
    let (text, end) = blob(data, end);
    let text = match text {
        Ok(field) => match name(field) {
            Ok(text) => text,
            Err(e) => {
                return (Err(e), end);
            },
        },
        Err(e) => {
            return (Err(e), end);
        },
    };
    (Ok(BinStruct::new(found, icon, text, options)), end)
}

/// Reads the rest of the input from `pos` as one text.
pub fn text_rest(data: &[u8], pos: usize) -> (r: (Result<String, ParserError>, usize))
    ensures
        r.1 == text_to_end(data@, pos as int).end,
        agrees(r.0, text_to_end(data@, pos as int).result),
{
    let total: usize = data.len();
    if pos > total {
        return (Err(ParserError::IoError(IoErrorKind::UnexpectedEof)), pos);
    }
    let (rest, _) = take(data, pos, (total - pos) as u64);
    match rest {
        Ok(bytes) => match string_from_utf8(bytes) {
            Some(text) => (Ok(text), total),
            None => (Err(ParserError::IoError(IoErrorKind::InvalidData)), total),
        },
        Err(e) => (Err(e), total),
    }
}

/// What becomes of the descriptor that `serde_json` read from the text of a
/// container with type tag 2: the payload around it, or the error as a
/// [`ParserError::SerdeParseError`].
pub fn descriptor_parsed(parsed: Result<ahqstore_types::AHQStoreApplication, serde_json::Error>) -> (r:
    Result<AppFileType, ParserError>)
    ensures
        match parsed {
            Ok(app) => r == Ok::<AppFileType, ParserError>(AppFileType::Dat(app)),
            Err(e) => r == Err::<AppFileType, ParserError>(ParserError::SerdeParseError(e)),
        },
{
    match parsed {
        Ok(app) => Ok(AppFileType::Dat(app)),
        Err(e) => Err(ParserError::from(e)),
    }
}

/// Reads the payload with type tag `tag` at `pos`.
pub fn payload(data: &[u8], pos: usize, tag: u16) -> (r: (Result<AppFileType, ParserError>, usize))
    ensures
        r.1 == payload_at(data@, pos as int, tag as nat).end,
        agrees(r.0, payload_at(data@, pos as int, tag as nat).result),
{
    if tag == TAG_BIN {
        match bin(data, pos) {
            (Ok(b), end) => (Ok(AppFileType::Bin(b)), end),
            (Err(e), end) => (Err(e), end),
        }
    } else if tag == TAG_DAT {
        match text_rest(data, pos) {
            (Ok(text), end) => (descriptor_parsed(descriptor_from_json(text.as_str())), end),
            (Err(e), end) => (Err(e), end),
        }
    } else if tag == TAG_ODAT {
        match text_rest(data, pos) {
            (Ok(text), end) => (Ok(AppFileType::ODat(text)), end),
            (Err(e), end) => (Err(e), end),
        }
    } else {
        (Err(ParserError::UnrecognizedType(tag)), pos)
    }
}

/// Reads the container that starts at `pos`.
pub fn container(data: &[u8], pos: usize) -> (r: (Result<Schema, ParserError>, usize))
    ensures
        r.1 == decode_at(data@, pos as int).end,
        agrees(r.0, decode_at(data@, pos as int).result),
{
    proof {
        lemma_pow256_values();
        if pos + 2 <= data@.len() {
            lemma_be_value_bound(data@.subrange(pos as int, pos + 2));
        }
        if pos + 4 <= data@.len() {
            lemma_be_value_bound(data@.subrange(pos + 2, pos + 4));
        }
    }
    let (version, end) = number(data, pos, 2);
    let version = match version {
        Ok(version) => version,
        Err(e) => {
            return (Err(e), end);
        },
    };
    if version != VER as u64 {
        return (Err(ParserError::InvalidVersion(VER, version as u16)), end);
    }
    let (tag, end) = number(data, end, 2);
    let tag = match tag {
        Ok(tag) => tag,
        Err(e) => {
            return (Err(e), end);
        },
    };
    match payload(data, end, tag as u16) {
        (Ok(content), end) => (Ok(Schema::new(content)), end),
        (Err(e), end) => (Err(e), end),
    }
}

/// A decoder over the bytes of one container.
pub struct ExtReader {
    data: Vec<u8>,
}

impl View for ExtReader {
    type V = Seq<u8>;

    /// The bytes that the reader was made of.
    closed spec fn view(&self) -> Seq<u8> {
        self.data@
    }
}

impl ExtReader {
    /// A reader of the bytes `file`.
    pub fn new(file: Vec<u8>) -> (r: ExtReader)
        ensures
            r@ == file@,
    {
        ExtReader { data: file }
    }

    /// Decodes the container that the bytes hold from their first byte on.
    /// Bytes behind a binary package are left unread.
    pub fn parse(self) -> (r: Result<Schema, ParserError>)
        ensures
            agrees(r, decode(self@).result),
    {
        container(self.data.as_slice(), 0).0
    }

    /// Decodes as [`ExtReader::parse`] does and tells, as the second
    /// component, how many bytes were consumed.
    pub fn parse_counted(self) -> (r: (Result<Schema, ParserError>, usize))
        ensures
            agrees(r.0, decode(self@).result),
            r.1 == decode(self@).end,
    {
        container(self.data.as_slice(), 0)
    }
}

} // verus!

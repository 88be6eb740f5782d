//! The encoder: from a [`Schema`] to the bytes of a container.
//!
//! The entries of a binary package are written by ascending id. Its install
//! field is left empty for exactly the default install options, which is what
//! an empty field is read as; any other options are written as their JSON text.

use crate::bigendian::push_be;
use crate::error::{ErrorView, ParserError};
use crate::json::{descriptor_to_json, install_to_json};
use crate::layout::{
    encode_bin, encode_blob, encode_entries, encode_header, encode_text, install_field, SENTINEL,
    TAG_BIN, TAG_DAT, TAG_ODAT,
};
use crate::schema::{
    blobs, AppFileType, BinStruct, InstallerOptions, PayloadView, Schema, SchemaView,
};
use crate::VER;
use std::collections::HashMap;
use vstd::prelude::*;
use vstd::utf8::*;

verus! {

broadcast use vstd::std_specs::hash::group_hash_axioms;

/// Appends the version field and the type tag `tag`.
pub fn put_header(out: &mut Vec<u8>, tag: u16)
    ensures
        final(out)@ == old(out)@ + encode_header(tag),
{
    push_be(out, VER as u64, 2);
    push_be(out, tag as u64, 2);
}

/// Appends `bytes` behind their length.
pub fn put_blob(out: &mut Vec<u8>, bytes: &[u8])
    ensures
        final(out)@ == old(out)@ + encode_blob(bytes@),
{
    push_be(out, bytes.len() as u64, 8);
    out.extend_from_slice(bytes);
}

/// Appends the entries of `data` by ascending id, without the sentinel. An
/// entry with the reserved id 255 is not written.
pub fn put_entries(out: &mut Vec<u8>, data: &HashMap<u8, Vec<u8>>)
    ensures
        final(out)@ == old(out)@ + encode_entries(blobs(data@), 0),
{
    let mut id: u8 = 0;
    while id < SENTINEL
        invariant
            id <= SENTINEL,
            out@ + encode_entries(blobs(data@), id as nat) == old(out)@ + encode_entries(
                blobs(data@),
                0,
            ),
        decreases SENTINEL - id,
    {
        match data.get(&id) {
            Some(bytes) => {
                out.push(id);
                put_blob(out, bytes.as_slice());
            },
            None => {},
        }
        id += 1;
    }
}

/// The container of a binary package with the bytes `install` in its install
/// field.
pub fn bin_container(bin: &BinStruct, install: &[u8]) -> (out: Vec<u8>)
    ensures
        out@ == encode_bin(blobs(bin.data@), bin.icon@, install@, bin.name@),
{
    let mut out: Vec<u8> = Vec::new();
    put_header(&mut out, TAG_BIN);
    put_entries(&mut out, &bin.data);
    out.push(SENTINEL);
    put_blob(&mut out, bin.icon.as_slice());
    put_blob(&mut out, install);
    put_blob(&mut out, bin.name.as_str().as_bytes());
    out
}

/// The container with type tag `tag` around `text`.
pub fn text_container(tag: u16, text: &str) -> (out: Vec<u8>)
    ensures
        out@ == encode_text(tag, text@),
{
    let mut out: Vec<u8> = Vec::new();
    put_header(&mut out, tag);
    out.extend_from_slice(text.as_bytes());
    out
}

/// The bytes of the install field for `install`: none for the default
/// options, else their JSON text.
pub fn install_bytes(install: &InstallerOptions) -> (r: Result<Vec<u8>, ParserError>)
    ensures
        match install_field(install@) {
            Some(field) => r matches Ok(bytes) && bytes@ == field,
            None => r matches Err(e) && e@ == ErrorView::SerdeParseError,
        },
{
    if install.is_default() {
        Ok(Vec::new())
    } else {
        match install_to_json(install) {
            Ok(text) => {
                let mut bytes: Vec<u8> = Vec::new();
                bytes.extend_from_slice(text.as_str().as_bytes());
                Ok(bytes)
            },
            Err(e) => Err(ParserError::from(e)),
        }
    }
}

/// What `write` returns for `schema`, as far as the schema alone decides it.
/// A descriptor is written as whatever JSON text `serde_json` gives for it.
pub open spec fn written(schema: SchemaView, r: Result<Vec<u8>, ParserError>) -> bool {
    if schema.ver != VER {
        r matches Err(e) && e@ == ErrorView::InvalidVersion(VER, schema.ver)
    } else {
        match schema.data {
            PayloadView::Bin(bin) => if bin.data.contains_key(SENTINEL) {
                r matches Err(e) && e@ == ErrorView::ReservedKey
            } else {
                match install_field(bin.install) {
                    Some(field) => r matches Ok(bytes) && bytes@ == encode_bin(
                        bin.data,
                        bin.icon,
                        field,
                        bin.name,
                    ),
                    None => r matches Err(e) && e@ == ErrorView::SerdeParseError,
                }
            },
            PayloadView::Dat => match r {
                Ok(bytes) => exists|text: Seq<char>| bytes@ == #[trigger] encode_text(TAG_DAT, text),
                Err(e) => e@ == ErrorView::SerdeParseError,
            },
            PayloadView::ODat(text) => r matches Ok(bytes) && bytes@ == encode_text(
                TAG_ODAT,
                text,
            ),
        }
    }
}

/// An encoder of one container.
pub struct ExtWriter {
    data: Schema,
}

impl View for ExtWriter {
    type V = SchemaView;

    /// The content of the schema that the writer was made of.
    closed spec fn view(&self) -> SchemaView {
        self.data@
    }
}

impl ExtWriter {
    /// A writer of `schema`.
    pub fn new(schema: Schema) -> (r: ExtWriter)
        ensures
            r@ == schema@,
    {
        ExtWriter { data: schema }
    }

    /// Encodes the schema. A version other than the supported one and a
    /// binary package with the reserved entry id 255 are refused.
    pub fn write(&self) -> (r: Result<Vec<u8>, ParserError>)
        ensures
            written(self@, r),
    {
        if self.data.ver != VER {
            return Err(ParserError::InvalidVersion(VER, self.data.ver));
        }
        match &self.data.data {
            AppFileType::Bin(bin) => {
                if bin.data.contains_key(&SENTINEL) {
                    return Err(ParserError::ReservedKey);
                }
                match install_bytes(&bin.install) {
                    Ok(field) => Ok(bin_container(bin, field.as_slice())),
                    Err(e) => Err(e),
                }
            },
            AppFileType::Dat(app) => match descriptor_to_json(app) {
                Ok(text) => Ok(text_container(TAG_DAT, text.as_str())),
                Err(e) => Err(ParserError::from(e)),
            },
            AppFileType::ODat(text) => Ok(text_container(TAG_ODAT, text.as_str())),
        }
    }
}

} // verus!

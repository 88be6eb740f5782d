//! The byte layout of a container, as a specification.
//!
//! ```text
//! [2] version        the supported version
//! [2] type tag       1 binary package, 2 descriptor, 3 opaque text
//! tag 1:  entries, each [1] id  [8] length  [length] bytes
//!         [1] 0xFF   ends the entries
//!         [8] length [length] icon
//!         [8] length [length] install options as JSON; length 0: the default
//!         [8] length [length] name in UTF-8
//! tag 2:  the descriptor as JSON in UTF-8, to the end of the input
//! tag 3:  a text in UTF-8, to the end of the input
//! ```
//!
//! All integers are unsigned and big-endian. `decode_at` reads this layout
//! front to back, one field at a time, and stops at the first field that
//! fails; `encode_bin` and `encode_text` write it.

use crate::bigendian::{be_bytes, be_value};
use crate::error::{ErrorView, IoErrorKind};
use crate::json::{install_json, is_descriptor_json, json_install};
use crate::schema::{default_install, BinView, InstallView, PayloadView, SchemaView};
use crate::VER;
use vstd::prelude::*;
use vstd::utf8::*;

verus! {

/// The byte that ends the entries of a binary package. No entry has this id.
pub const SENTINEL: u8 = 0xFF;

/// The type tag of a binary package.
pub const TAG_BIN: u16 = 1;

/// The type tag of an application descriptor.
pub const TAG_DAT: u16 = 2;

/// The type tag of an opaque text.
pub const TAG_ODAT: u16 = 3;

/// What reading one part of the layout gives, and how far it read: `end` is
/// the position behind the last byte consumed. A read that finds too few
/// bytes consumes none.
pub struct Step<T> {
    pub result: Result<T, ErrorView>,
    pub end: int,
}

/// A read that failed with `error`, having consumed the bytes before `end`.
pub open spec fn failed<T>(error: ErrorView, end: int) -> Step<T> {
    Step { result: Err(error), end }
}

/// A read that found the input exhausted at `end`.
pub open spec fn exhausted<T>(end: int) -> Step<T> {
    failed(ErrorView::IoError(IoErrorKind::UnexpectedEof), end)
}

/// The big-endian number in the `width` bytes at `pos`.
pub open spec fn number_at(s: Seq<u8>, pos: int, width: nat) -> Step<nat> {
    if 0 <= pos && pos + width <= s.len() {
        Step { result: Ok(be_value(s.subrange(pos, pos + width))), end: pos + width }
    } else {
        exhausted(pos)
    }
}

/// The `count` bytes at `pos`.
pub open spec fn bytes_at(s: Seq<u8>, pos: int, count: nat) -> Step<Seq<u8>> {
    if 0 <= pos && pos + count <= s.len() {
        Step { result: Ok(s.subrange(pos, pos + count)), end: pos + count }
    } else {
        exhausted(pos)
    }
}

/// A length-prefixed byte string at `pos`: eight bytes of length, then that
/// many bytes.
pub open spec fn blob_at(s: Seq<u8>, pos: int) -> Step<Seq<u8>> {
    match number_at(s, pos, 8).result {
        Ok(len) => bytes_at(s, pos + 8, len),
        Err(e) => failed(e, pos),
    }
}

/// The entries from `pos` up to the sentinel, added to `found`. An id that
/// comes twice keeps the bytes that came last.
pub open spec fn entries_at(s: Seq<u8>, pos: int, found: Map<u8, Seq<u8>>) -> Step<
    Map<u8, Seq<u8>>,
>
    decreases s.len() - pos,
{
    if pos < 0 || pos >= s.len() {
        exhausted(pos)
    } else if s[pos] == SENTINEL {
        Step { result: Ok(found), end: pos + 1 }
    } else {
        let body = blob_at(s, pos + 1);
        match body.result {
            Ok(bytes) => entries_at(s, body.end, found.insert(s[pos], bytes)),
            Err(e) => failed(e, body.end),
        }
    }
}

/// The install options that the install field `field` stands for: the
/// default if it is empty, else what its JSON text says.
pub open spec fn install_of(field: Seq<u8>) -> Result<InstallView, ErrorView> {
    if field.len() == 0 {
        Ok(default_install())
    } else if !valid_utf8(field) {
        Err(ErrorView::Invalid)
    } else {
        match json_install(decode_utf8(field)) {
            Some(install) => Ok(install),
            None => Err(ErrorView::SerdeParseError),
        }
    }
}

/// The name that the name field `field` stands for.
pub open spec fn name_of(field: Seq<u8>) -> Result<Seq<char>, ErrorView> {
    if field.len() == 0 {
        Ok(Seq::empty())
    } else if !valid_utf8(field) {
        Err(ErrorView::Invalid)
    } else {
        Ok(decode_utf8(field))
    }
}

/// The body of a binary package at `pos`: entries, icon, install options and
/// name, in this order.
pub open spec fn bin_at(s: Seq<u8>, pos: int) -> Step<BinView> {
    let entries = entries_at(s, pos, Map::empty());
    match entries.result {
        Err(e) => failed(e, entries.end),
        Ok(data) => {
            let icon = blob_at(s, entries.end);
            match icon.result {
                Err(e) => failed(e, icon.end),
                Ok(icon_bytes) => {
                    let install = blob_at(s, icon.end);
                    match install.result {
                        Err(e) => failed(e, install.end),
                        Ok(install_bytes) => match install_of(install_bytes) {
                            Err(e) => failed(e, install.end),
                            Ok(options) => {
                                let name = blob_at(s, install.end);
                                match name.result {
                                    Err(e) => failed(e, name.end),
                                    Ok(name_bytes) => match name_of(name_bytes) {
                                        Err(e) => failed(e, name.end),
                                        Ok(text) => Step {
                                            result: Ok(
                                                BinView {
                                                    data,
                                                    icon: icon_bytes,
                                                    name: text,
                                                    install: options,
                                                },
                                            ),
                                            end: name.end,
                                        },
                                    },
                                }
                            },
                        },
                    }
                },
            }
        },
    }
}

/// Where the install field of the binary package at `pos` starts: behind its
/// entries and its icon.
pub open spec fn install_field_pos(s: Seq<u8>, pos: int) -> int {
    blob_at(s, entries_at(s, pos, Map::empty()).end).end
}

/// Where the name field of the binary package at `pos` starts: behind its
/// install field.
pub open spec fn name_field_pos(s: Seq<u8>, pos: int) -> int {
    blob_at(s, install_field_pos(s, pos)).end
}

/// Whether the length field at `pos` is there and declares more bytes than
/// the input holds behind it.
pub open spec fn declares_too_much(s: Seq<u8>, pos: int) -> bool {
    number_at(s, pos, 8).result matches Ok(len) && pos + 8 + len > s.len()
}

/// Whether `s` starts with the header of a container whose payload is a text
/// that runs to the end of the input.
pub open spec fn reads_to_end(s: Seq<u8>) -> bool {
    &&& number_at(s, 0, 2).result == Ok::<nat, ErrorView>(VER as nat)
    &&& number_at(s, 2, 2).result matches Ok(tag)
    &&& (tag == TAG_DAT || tag == TAG_ODAT)
}

/// Whether a read ran out of input.
pub open spec fn ran_out<T>(step: Step<T>) -> bool {
    step.result == Err::<T, ErrorView>(ErrorView::IoError(IoErrorKind::UnexpectedEof))
}

/// The text from `pos` to the end of the input. Such a read consumes the
/// rest of the input whether or not it is UTF-8.
pub open spec fn text_to_end(s: Seq<u8>, pos: int) -> Step<Seq<char>> {
    let rest = s.subrange(pos, s.len() as int);
    if pos < 0 || pos > s.len() {
        exhausted(pos)
    } else if valid_utf8(rest) {
        Step { result: Ok(decode_utf8(rest)), end: s.len() as int }
    } else {
        failed(ErrorView::IoError(IoErrorKind::InvalidData), s.len() as int)
    }
}

/// The payload with type tag `tag` at `pos`.
pub open spec fn payload_at(s: Seq<u8>, pos: int, tag: nat) -> Step<PayloadView> {
    if tag == TAG_BIN {
        let bin = bin_at(s, pos);
        match bin.result {
            Ok(b) => Step { result: Ok(PayloadView::Bin(b)), end: bin.end },
            Err(e) => failed(e, bin.end),
        }
    } else if tag == TAG_DAT {
        let text = text_to_end(s, pos);
        match text.result {
            Ok(t) => if is_descriptor_json(t) {
                Step { result: Ok(PayloadView::Dat), end: text.end }
            } else {
                failed(ErrorView::SerdeParseError, text.end)
            },
            Err(e) => failed(e, text.end),
        }
    } else if tag == TAG_ODAT {
        let text = text_to_end(s, pos);
        match text.result {
            Ok(t) => Step { result: Ok(PayloadView::ODat(t)), end: text.end },
            Err(e) => failed(e, text.end),
        }
    } else {
        failed(ErrorView::UnrecognizedType(tag as u16), pos)
    }
}

/// The container that starts at `pos`. A version other than the supported
/// one ends the read behind the version field.
pub open spec fn decode_at(s: Seq<u8>, pos: int) -> Step<SchemaView> {
    let version = number_at(s, pos, 2);
    match version.result {
        Err(e) => failed(e, version.end),
        Ok(found) => if found != VER {
            failed(ErrorView::InvalidVersion(VER, found as u16), version.end)
        } else {
            let tag = number_at(s, version.end, 2);
            match tag.result {
                Err(e) => failed(e, tag.end),
                Ok(t) => {
                    let payload = payload_at(s, tag.end, t);
                    match payload.result {
                        Ok(data) => Step {
                            result: Ok(SchemaView { ver: VER, data }),
                            end: payload.end,
                        },
                        Err(e) => failed(e, payload.end),
                    }
                },
            }
        },
    }
}

/// The container that `s` holds from its first byte on.
pub open spec fn decode(s: Seq<u8>) -> Step<SchemaView> {
    decode_at(s, 0)
}

/// A byte string behind its length.
pub open spec fn encode_blob(bytes: Seq<u8>) -> Seq<u8> {
    be_bytes(bytes.len(), 8) + bytes
}

/// The entries of `data` with an id of `from` or more, by ascending id. The
/// id 255 is never written.
pub open spec fn encode_entries(data: Map<u8, Seq<u8>>, from: nat) -> Seq<u8>
    decreases 255 - from,
{
    if from >= 255 {
        Seq::empty()
    } else if data.contains_key(from as u8) {
        seq![from as u8] + encode_blob(data[from as u8]) + encode_entries(data, from + 1)
    } else {
        encode_entries(data, from + 1)
    }
}

/// The version field and a type tag.
pub open spec fn encode_header(tag: u16) -> Seq<u8> {
    be_bytes(VER as nat, 2) + be_bytes(tag as nat, 2)
}

/// A binary package with the bytes `install` in its install field.
pub open spec fn encode_bin(
    data: Map<u8, Seq<u8>>,
    icon: Seq<u8>,
    install: Seq<u8>,
    name: Seq<char>,
) -> Seq<u8> {
    encode_header(TAG_BIN) + encode_entries(data, 0) + seq![SENTINEL] + encode_blob(icon)
        + encode_blob(install) + encode_blob(encode_utf8(name))
}

/// What is written into the install field for `install`: nothing for the
/// default options, else their JSON text, where `serde_json` gives one.
pub open spec fn install_field(install: InstallView) -> Option<Seq<u8>> {
    if install == default_install() {
        Some(Seq::empty())
    } else {
        match install_json(install) {
            Some(text) => Some(encode_utf8(text)),
            None => None,
        }
    }
}

/// A text behind the header with type tag `tag`, up to the end of the output.
pub open spec fn encode_text(tag: u16, text: Seq<char>) -> Seq<u8> {
    encode_header(tag) + encode_utf8(text)
}

} // verus!

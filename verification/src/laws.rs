//! What holds of the codec as a whole: decoding gives back what encoding was
//! given, and what callers may rely on where an input is cut short or is
//! followed by more.

use crate::bigendian::{
    be_bytes, be_value, lemma_be_bytes_len, lemma_be_value_of_bytes, lemma_pow256_values, pow256,
};
use crate::error::{ErrorView, ParserError};
use crate::json::{install_json, is_descriptor_json, json_install};
use crate::layout::{
    bin_at, blob_at, declares_too_much, decode, encode_bin, encode_blob, encode_entries,
    encode_header, encode_text, entries_at, exhausted, failed, install_field, install_field_pos,
    install_of, name_field_pos, name_of, number_at, ran_out, reads_to_end, text_to_end, Step,
    SENTINEL, TAG_BIN, TAG_DAT, TAG_ODAT,
};
use crate::reader::agrees;
use crate::schema::{default_install, BinView, InstallView, PayloadView, Schema, SchemaView};
use crate::writer::written;
use crate::VER;
use vstd::prelude::*;
use vstd::utf8::*;

verus! {

/// Whether every length in `bin` can be written into a length field of eight
/// bytes. Every package that exists at run time meets this.
pub open spec fn bin_fits(bin: BinView, install: Seq<u8>) -> bool {
    &&& forall|id: u8| #[trigger] bin.data.contains_key(id) ==> bin.data[id].len() < pow256(8)
    &&& bin.icon.len() < pow256(8)
    &&& install.len() < pow256(8)
    &&& encode_utf8(bin.name).len() < pow256(8)
}

/// The entries of `data` with an id from `from` up to 254, added to `found`.
pub open spec fn merged(found: Map<u8, Seq<u8>>, data: Map<u8, Seq<u8>>, from: nat) -> Map<
    u8,
    Seq<u8>,
> {
    Map::new(
        |id: u8| found.contains_key(id) || (data.contains_key(id) && from <= id < SENTINEL),
        |id: u8|
            if data.contains_key(id) && from <= id < SENTINEL {
                data[id]
            } else {
                found[id]
            },
    )
}

/// A length-prefixed byte string is read back as it was written.
pub proof fn lemma_blob_read_back(s: Seq<u8>, pos: int, bytes: Seq<u8>)
    requires
        0 <= pos,
        pos + 8 + bytes.len() <= s.len(),
        s.subrange(pos, pos + 8 + bytes.len()) == encode_blob(bytes),
        bytes.len() < pow256(8),
    ensures
        blob_at(s, pos) == (Step { result: Ok(bytes), end: pos + 8 + bytes.len() }),
{
    let len = bytes.len();
    lemma_be_bytes_len(len, 8);
    lemma_be_value_of_bytes(len, 8);
    let whole = s.subrange(pos, pos + 8 + len);
    assert(s.subrange(pos, pos + 8) =~= be_bytes(len, 8)) by {
        assert forall|i: int| 0 <= i < 8 implies s.subrange(pos, pos + 8)[i] == be_bytes(len, 8)[i] by {
            assert(whole[i] == s[pos + i]);
        }
    }
    assert(s.subrange(pos + 8, pos + 8 + len) =~= bytes) by {
        assert forall|i: int| 0 <= i < len implies s.subrange(pos + 8, pos + 8 + len)[i]
            == bytes[i] by {
            assert(whole[8 + i] == s[pos + 8 + i]);
        }
    }
}

/// The entries that `encode_entries` wrote are read back, each under its id.
pub proof fn lemma_entries_read_back(
    s: Seq<u8>,
    pos: int,
    data: Map<u8, Seq<u8>>,
    from: nat,
    found: Map<u8, Seq<u8>>,
)
    requires
        0 <= pos,
        from <= 255,
        forall|id: u8| #[trigger] data.contains_key(id) ==> data[id].len() < pow256(8),
        pos + encode_entries(data, from).len() < s.len(),
        s.subrange(pos, pos + encode_entries(data, from).len()) == encode_entries(data, from),
        s[pos + encode_entries(data, from).len()] == SENTINEL,
    ensures
        entries_at(s, pos, found) == (Step {
            result: Ok(merged(found, data, from)),
            end: pos + encode_entries(data, from).len() + 1,
        }),
    decreases 255 - from,
{
    let here = encode_entries(data, from);
    if from >= 255 {
        assert(merged(found, data, from) =~= found);
    } else if data.contains_key(from as u8) {
        let id = from as u8;
        let bytes = data[id];
        let rest = encode_entries(data, from + 1);
        let written = s.subrange(pos, pos + here.len());
        lemma_be_bytes_len(bytes.len(), 8);
        assert(s[pos] == id) by {
            assert(written[0] == s[pos]);
        }
        let body = pos + 1;
        assert(s.subrange(body, body + 8 + bytes.len()) =~= encode_blob(bytes)) by {
            assert forall|i: int| 0 <= i < 8 + bytes.len() implies s.subrange(
                body,
                body + 8 + bytes.len(),
            )[i] == encode_blob(bytes)[i] by {
                assert(written[1 + i] == s[pos + 1 + i]);
            }
        }
        lemma_blob_read_back(s, body, bytes);
        let next = body + 8 + bytes.len();
        assert(s.subrange(next, next + rest.len()) =~= rest) by {
            assert forall|i: int| 0 <= i < rest.len() implies s.subrange(next, next + rest.len())[i]
                == rest[i] by {
                assert(written[9 + bytes.len() + i] == s[next + i]);
            }
        }
        lemma_entries_read_back(s, next, data, from + 1, found.insert(id, bytes));
        assert(merged(found.insert(id, bytes), data, from + 1) =~= merged(found, data, from));
    } else {
        lemma_entries_read_back(s, pos, data, from + 1, found);
        assert(merged(found, data, from + 1) =~= merged(found, data, from));
    }
}

/// The header is four bytes: the supported version, then the tag.
pub proof fn lemma_header_read_back(s: Seq<u8>, tag: u16)
    requires
        4 <= s.len(),
        s.subrange(0, 4) == encode_header(tag),
    ensures
        number_at(s, 0, 2) == (Step { result: Ok(VER as nat), end: 2 }),
        number_at(s, 2, 2) == (Step { result: Ok(tag as nat), end: 4 }),
{
    lemma_pow256_values();
    lemma_be_bytes_len(VER as nat, 2);
    lemma_be_bytes_len(tag as nat, 2);
    lemma_be_value_of_bytes(VER as nat, 2);
    lemma_be_value_of_bytes(tag as nat, 2);
    let header = s.subrange(0, 4);
    assert(s.subrange(0, 2) =~= be_bytes(VER as nat, 2)) by {
        assert forall|i: int| 0 <= i < 2 implies s.subrange(0, 2)[i] == be_bytes(VER as nat, 2)[i] by {
            assert(header[i] == s[i]);
        }
    }
    assert(s.subrange(2, 4) =~= be_bytes(tag as nat, 2)) by {
        assert forall|i: int| 0 <= i < 2 implies s.subrange(2, 4)[i] == be_bytes(tag as nat, 2)[i] by {
            assert(header[2 + i] == s[2 + i]);
        }
    }
}

/// A name is read back from its UTF-8 bytes.
pub proof fn lemma_name_read_back(name: Seq<char>)
    ensures
        name_of(encode_utf8(name)) == Ok::<Seq<char>, ErrorView>(name),
{
    encode_utf8_valid_utf8(name);
    encode_utf8_decode_utf8(name);
    if encode_utf8(name).len() == 0 {
        assert(decode_utf8(encode_utf8(name)) =~= Seq::<char>::empty());
    }
}

/// A binary package is read back as it was written: the same entries, icon
/// and name, and the install options that its install field stands for.
pub proof fn lemma_bin_read_back(bin: BinView, field: Seq<u8>)
    requires
        !bin.data.contains_key(SENTINEL),
        bin_fits(bin, field),
        install_of(field) == Ok::<InstallView, ErrorView>(bin.install),
    ensures
        decode(encode_bin(bin.data, bin.icon, field, bin.name)) == (Step {
            result: Ok(SchemaView { ver: VER, data: PayloadView::Bin(bin) }),
            end: encode_bin(bin.data, bin.icon, field, bin.name).len() as int,
        }),
{
    let s = encode_bin(bin.data, bin.icon, field, bin.name);
    let header = encode_header(TAG_BIN);
    let listed = encode_entries(bin.data, 0);
    let name_bytes = encode_utf8(bin.name);
    lemma_be_bytes_len(VER as nat, 2);
    lemma_be_bytes_len(TAG_BIN as nat, 2);
    lemma_be_bytes_len(bin.icon.len(), 8);
    lemma_be_bytes_len(field.len(), 8);
    lemma_be_bytes_len(name_bytes.len(), 8);
    let sentinel_pos = 4 + listed.len();
    let icon_pos = sentinel_pos + 1;
    let install_pos = icon_pos + 8 + bin.icon.len();
    let name_pos = install_pos + 8 + field.len();
    let end = name_pos + 8 + name_bytes.len();
    assert(s.subrange(0, 4) =~= header);
    lemma_header_read_back(s, TAG_BIN);
    assert(s.subrange(4, sentinel_pos as int) =~= listed);
    lemma_entries_read_back(s, 4, bin.data, 0, Map::empty());
    assert(merged(Map::empty(), bin.data, 0) =~= bin.data);
    assert(s.subrange(icon_pos as int, install_pos as int) =~= encode_blob(bin.icon));
    lemma_blob_read_back(s, icon_pos as int, bin.icon);
    assert(s.subrange(install_pos as int, name_pos as int) =~= encode_blob(field));
    lemma_blob_read_back(s, install_pos as int, field);
    assert(s.subrange(name_pos as int, end as int) =~= encode_blob(name_bytes));
    lemma_blob_read_back(s, name_pos as int, name_bytes);
    lemma_name_read_back(bin.name);
}

/// A text container is read back as the text that was written.
pub proof fn lemma_text_read_back(tag: u16, text: Seq<char>)
    ensures
        text_to_end(encode_text(tag, text), 4) == (Step {
            result: Ok(text),
            end: encode_text(tag, text).len() as int,
        }),
        number_at(encode_text(tag, text), 0, 2) == (Step { result: Ok(VER as nat), end: 2 }),
        number_at(encode_text(tag, text), 2, 2) == (Step { result: Ok(tag as nat), end: 4 }),
{
    let s = encode_text(tag, text);
    lemma_be_bytes_len(VER as nat, 2);
    lemma_be_bytes_len(tag as nat, 2);
    assert(s.subrange(0, 4) =~= encode_header(tag));
    lemma_header_read_back(s, tag);
    assert(s.subrange(4, s.len() as int) =~= encode_utf8(text));
    encode_utf8_valid_utf8(text);
    encode_utf8_decode_utf8(text);
}

/// Whether `serde_json` reads the install options `install` back from the
/// text that it writes for them. The default options need no text.
pub open spec fn install_reads_back(install: InstallView) -> bool {
    install == default_install() || match install_json(install) {
        Some(text) => text.len() > 0 && json_install(text) == Some(install),
        None => false,
    }
}

/// Whether every length in `schema` can be written into a length field of
/// eight bytes. Every schema that exists at run time meets this.
pub open spec fn fits(schema: SchemaView) -> bool {
    match schema.data {
        PayloadView::Bin(bin) => match install_field(bin.install) {
            Some(field) => bin_fits(bin, field),
            None => true,
        },
        _ => true,
    }
}

/// Whether `serde_json` reads back the structured values of `schema` from the
/// JSON text that stands for them in `bytes`: the install options of a
/// binary package, and the descriptor.
pub open spec fn json_reads_back(schema: SchemaView, bytes: Seq<u8>) -> bool {
    match schema.data {
        PayloadView::Bin(bin) => install_reads_back(bin.install),
        PayloadView::Dat => forall|text: Seq<char>|
            bytes == #[trigger] encode_text(TAG_DAT, text) ==> is_descriptor_json(text),
        PayloadView::ODat(_) => true,
    }
}

/// The install field that was written for install options stands for these
/// options, where `serde_json` reads its own text back.
pub proof fn lemma_install_read_back(install: InstallView)
    requires
        install_reads_back(install),
    ensures
        install_field(install) matches Some(field) && install_of(field) == Ok::<
            InstallView,
            ErrorView,
        >(install),
{
    if install != default_install() {
        let text = install_json(install)->0;
        encode_utf8_valid_utf8(text);
        encode_utf8_decode_utf8(text);
        assert(encode_utf8(text).len() > 0) by {
            assert(encode_utf8(text) == encode_scalar(text[0] as u32) + encode_utf8(
                text.drop_first(),
            ));
        }
    }
}

/// The bytes that the encoder gives for a schema are decoded to a schema of
/// the same content, and to their last byte. This holds of every schema that
/// the encoder accepts, as far as `serde_json` reads back what it wrote. Of a
/// descriptor the content is only that it is one.
pub proof fn lemma_round_trip(schema: SchemaView, out: Result<Vec<u8>, ParserError>)
    requires
        written(schema, out),
        out is Ok,
        fits(schema),
        json_reads_back(schema, out->Ok_0@),
    ensures
        decode(out->Ok_0@) == (Step { result: Ok(schema), end: out->Ok_0@.len() as int }),
{
    let bytes = out->Ok_0@;
    match schema.data {
        PayloadView::Bin(bin) => {
            lemma_install_read_back(bin.install);
            lemma_bin_read_back(bin, install_field(bin.install)->0);
        },
        PayloadView::Dat => {
            let text = choose|text: Seq<char>| bytes == #[trigger] encode_text(TAG_DAT, text);
            lemma_text_read_back(TAG_DAT, text);
        },
        PayloadView::ODat(text) => {
            lemma_text_read_back(TAG_ODAT, text);
        },
    }
}

/// The encoder and the decoder undo each other: where the encoder's result
/// `out` for `schema` is handed to the decoder, the decoder's result `back` is
/// a schema of the same content.
pub proof fn lemma_write_then_parse(
    schema: Schema,
    out: Result<Vec<u8>, ParserError>,
    back: Result<Schema, ParserError>,
)
    requires
        written(schema@, out),
        out is Ok,
        agrees(back, decode(out->Ok_0@).result),
        fits(schema@),
        json_reads_back(schema@, out->Ok_0@),
    ensures
        back is Ok,
        back->Ok_0@ == schema@,
{
    lemma_round_trip(schema@, out);
}

/// Where the first two bytes hold another version than the supported one,
/// decoding fails with that version, whatever follows, and consumes the two
/// bytes only.
pub proof fn lemma_version_gate(s: Seq<u8>)
    requires
        2 <= s.len(),
        be_value(s.subrange(0, 2)) != VER,
    ensures
        decode(s) == failed::<SchemaView>(
            ErrorView::InvalidVersion(VER, be_value(s.subrange(0, 2)) as u16),
            2,
        ),
{
}

/// Reading entries adds no entry with the reserved id.
pub proof fn lemma_entries_never_reserved(s: Seq<u8>, pos: int, found: Map<u8, Seq<u8>>)
    requires
        !found.contains_key(SENTINEL),
    ensures
        entries_at(s, pos, found).result matches Ok(data) ==> !data.contains_key(SENTINEL),
    decreases s.len() - pos,
{
    if 0 <= pos < s.len() && s[pos] != SENTINEL {
        let body = blob_at(s, pos + 1);
        if let Ok(bytes) = body.result {
            lemma_entries_never_reserved(s, body.end, found.insert(s[pos], bytes));
        }
    }
}

/// No decoded binary package has an entry with the reserved id 255.
pub proof fn lemma_decoded_ids_not_reserved(s: Seq<u8>)
    ensures
        decode(s).result matches Ok(schema) ==> (schema.data matches PayloadView::Bin(bin)
            ==> !bin.data.contains_key(SENTINEL)),
{
    lemma_entries_never_reserved(s, 4, Map::empty());
}

/// Whatever is decoded is well formed: it has the supported version and no
/// entry with the reserved id.
pub proof fn lemma_decoded_well_formed(s: Seq<u8>)
    ensures
        decode(s).result matches Ok(schema) ==> schema.wf(),
{
    lemma_decoded_ids_not_reserved(s);
}

/// Only a well-formed schema is encoded: any other is refused.
pub proof fn lemma_encoded_well_formed(schema: SchemaView, out: Result<Vec<u8>, ParserError>)
    requires
        written(schema, out),
    ensures
        out is Ok ==> schema.wf(),
        !schema.wf() ==> (out matches Err(e) && (e@ == ErrorView::InvalidVersion(VER, schema.ver)
            || e@ == ErrorView::ReservedKey)),
{
}

/// A binary package whose install field has the length 0 is decoded with the
/// default install options.
pub proof fn lemma_absent_install_is_default(s: Seq<u8>)
    requires
        decode(s).result is Ok,
        decode(s).result->Ok_0.data is Bin,
        number_at(s, install_field_pos(s, 4), 8).result == Ok::<nat, ErrorView>(0),
    ensures
        decode(s).result->Ok_0.data->Bin_0.install == default_install(),
{
}

/// A binary package whose name field has the length 0 is decoded with the
/// empty name.
pub proof fn lemma_absent_name_is_empty(s: Seq<u8>)
    requires
        decode(s).result is Ok,
        decode(s).result->Ok_0.data is Bin,
        number_at(s, name_field_pos(s, 4), 8).result == Ok::<nat, ErrorView>(0),
    ensures
        decode(s).result->Ok_0.data->Bin_0.name == Seq::<char>::empty(),
{
}

/// A length field that declares more bytes than the input holds behind it
/// fails the read as unexpected end of input.
pub proof fn lemma_length_beyond_input(s: Seq<u8>, pos: int)
    requires
        declares_too_much(s, pos),
    ensures
        blob_at(s, pos) == exhausted::<Seq<u8>>(pos + 8),
{
}

/// An entry whose length field declares more bytes than the input holds
/// behind it ends the reading of entries as unexpected end of input.
pub proof fn lemma_entry_beyond_input(s: Seq<u8>, pos: int, found: Map<u8, Seq<u8>>)
    requires
        0 <= pos < s.len(),
        s[pos] != SENTINEL,
        declares_too_much(s, pos + 1),
    ensures
        entries_at(s, pos, found) == exhausted::<Map<u8, Seq<u8>>>(pos + 9),
{
}

/// The icon, the install field or the name of a binary package, reached with
/// all before it read, fails the decoding as unexpected end of input where
/// its length field declares more bytes than the input holds behind it.
pub proof fn lemma_field_beyond_input(s: Seq<u8>)
    requires
        number_at(s, 0, 2).result == Ok::<nat, ErrorView>(VER as nat),
        number_at(s, 2, 2).result == Ok::<nat, ErrorView>(TAG_BIN as nat),
        entries_at(s, 4, Map::empty()).result is Ok,
        ({
            let icon_pos = entries_at(s, 4, Map::empty()).end;
            let install_pos = install_field_pos(s, 4);
            let name_pos = name_field_pos(s, 4);
            ||| declares_too_much(s, icon_pos)
            ||| blob_at(s, icon_pos).result is Ok && declares_too_much(s, install_pos)
            ||| blob_at(s, icon_pos).result is Ok && blob_at(s, install_pos).result is Ok
                && install_of(blob_at(s, install_pos).result->Ok_0) is Ok && declares_too_much(
                s,
                name_pos,
            )
        }),
    ensures
        ran_out(decode(s)),
{
}

/// A number that was read is read again, the same, when more input follows.
pub proof fn lemma_number_extended(s: Seq<u8>, more: Seq<u8>, pos: int, width: nat)
    requires
        number_at(s, pos, width).result is Ok,
    ensures
        number_at(s + more, pos, width) == number_at(s, pos, width),
{
    assert((s + more).subrange(pos, pos + width) =~= s.subrange(pos, pos + width));
}

/// A length-prefixed byte string that was read is read again, the same, when
/// more input follows.
pub proof fn lemma_blob_extended(s: Seq<u8>, more: Seq<u8>, pos: int)
    requires
        blob_at(s, pos).result is Ok,
    ensures
        blob_at(s + more, pos) == blob_at(s, pos),
{
    lemma_number_extended(s, more, pos, 8);
    let len = number_at(s, pos, 8).result->Ok_0;
    assert((s + more).subrange(pos + 8, pos + 8 + len) =~= s.subrange(pos + 8, pos + 8 + len));
}

/// Entries that were read up to the sentinel are read again, the same, when
/// more input follows.
pub proof fn lemma_entries_extended(s: Seq<u8>, more: Seq<u8>, pos: int, found: Map<u8, Seq<u8>>)
    requires
        entries_at(s, pos, found).result is Ok,
    ensures
        entries_at(s + more, pos, found) == entries_at(s, pos, found),
    decreases s.len() - pos,
{
    if s[pos] != SENTINEL {
        let body = blob_at(s, pos + 1);
        lemma_blob_extended(s, more, pos + 1);
        lemma_entries_extended(s, more, body.end, found.insert(s[pos], body.result->Ok_0));
    }
}

/// A binary package whose decoding did not run out of input is decoded the
/// same when more input follows.
pub proof fn lemma_bin_extended(s: Seq<u8>, more: Seq<u8>, pos: int)
    requires
        !ran_out(bin_at(s, pos)),
    ensures
        bin_at(s + more, pos) == bin_at(s, pos),
{
    let entries = entries_at(s, pos, Map::empty());
    lemma_entries_only_run_out(s, pos, Map::empty());
    lemma_entries_extended(s, more, pos, Map::empty());
    let icon = blob_at(s, entries.end);
    lemma_blob_extended(s, more, entries.end);
    let install = blob_at(s, icon.end);
    lemma_blob_extended(s, more, icon.end);
    if install_of(install.result->Ok_0) is Ok {
        lemma_blob_extended(s, more, install.end);
    }
}

/// Reading entries fails in one way only: by running out of input.
pub proof fn lemma_entries_only_run_out(s: Seq<u8>, pos: int, found: Map<u8, Seq<u8>>)
    ensures
        entries_at(s, pos, found).result is Err ==> ran_out(entries_at(s, pos, found)),
    decreases s.len() - pos,
{
    if 0 <= pos < s.len() && s[pos] != SENTINEL {
        let body = blob_at(s, pos + 1);
        if let Ok(bytes) = body.result {
            lemma_entries_only_run_out(s, body.end, found.insert(s[pos], bytes));
        }
    }
}

/// Nothing behind a container changes how it is decoded: unless the payload
/// is a text that runs to the end of the input, a decoding that did not run
/// out of input stays what it is, in its result and in the bytes it consumed,
/// whatever is appended.
pub proof fn lemma_decode_extended(s: Seq<u8>, more: Seq<u8>)
    requires
        !ran_out(decode(s)),
        !reads_to_end(s),
    ensures
        decode(s + more) == decode(s),
{
    lemma_number_extended(s, more, 0, 2);
    if number_at(s, 0, 2).result == Ok::<nat, ErrorView>(VER as nat) {
        lemma_number_extended(s, more, 2, 2);
        if number_at(s, 2, 2).result == Ok::<nat, ErrorView>(TAG_BIN as nat) {
            lemma_bin_extended(s, more, 4);
        }
    }
}

/// No read consumes more than the input holds.
pub proof fn lemma_entries_end_in_input(s: Seq<u8>, pos: int, found: Map<u8, Seq<u8>>)
    requires
        0 <= pos <= s.len(),
    ensures
        0 <= entries_at(s, pos, found).end <= s.len(),
    decreases s.len() - pos,
{
    if pos < s.len() && s[pos] != SENTINEL {
        let body = blob_at(s, pos + 1);
        if let Ok(bytes) = body.result {
            lemma_entries_end_in_input(s, body.end, found.insert(s[pos], bytes));
        }
    }
}

/// Decoding consumes no more than the input holds.
pub proof fn lemma_decode_end_in_input(s: Seq<u8>)
    ensures
        0 <= decode(s).end <= s.len(),
{
    if 4 <= s.len() {
        lemma_entries_end_in_input(s, 4, Map::empty());
    }
}

/// A container that is cut short of what its decoding consumes fails as
/// unexpected end of input, wherever the cut falls. A payload that is a text
/// running to the end of the input has no length to fall short of and is
/// left out.
pub proof fn lemma_truncated(s: Seq<u8>, len: int)
    requires
        !reads_to_end(s),
        0 <= len < decode(s).end,
    ensures
        ran_out(decode(s.take(len))),
{
    lemma_decode_end_in_input(s);
    let head = s.take(len);
    let tail = s.skip(len);
    assert(head + tail =~= s);
    lemma_decode_end_in_input(head);
    if !ran_out(decode(head)) {
        if reads_to_end(head) {
            lemma_number_extended(head, tail, 0, 2);
            lemma_number_extended(head, tail, 2, 2);
        }
        lemma_decode_extended(head, tail);
    }
}

} // verus!

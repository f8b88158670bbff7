use vstd::prelude::*;

use crate::binary_reader::{four_cc_at, i16_le, i32_le, text_at, BinaryReader};
use crate::chunk::{
    list_body, list_end, list_header_error, next_remaining, read_list_header,
    read_sub_chunk_header, tag_is, walk_end,
};
use crate::four_cc::FourCC;
use crate::error::ParseError;

verus! {

/// Type of the information list.
pub const INFO: [u8; 4] = [0x49, 0x4e, 0x46, 0x4f];

pub const IFIL: [u8; 4] = [0x69, 0x66, 0x69, 0x6c];

pub const ISNG: [u8; 4] = [0x69, 0x73, 0x6e, 0x67];

pub const INAM: [u8; 4] = [0x49, 0x4e, 0x41, 0x4d];

pub const IROM: [u8; 4] = [0x69, 0x72, 0x6f, 0x6d];

pub const IVER: [u8; 4] = [0x69, 0x76, 0x65, 0x72];

pub const ICRD: [u8; 4] = [0x49, 0x43, 0x52, 0x44];

pub const IENG: [u8; 4] = [0x49, 0x45, 0x4e, 0x47];

pub const IPRD: [u8; 4] = [0x49, 0x50, 0x52, 0x44];

pub const ICOP: [u8; 4] = [0x49, 0x43, 0x4f, 0x50];

pub const ICMT: [u8; 4] = [0x49, 0x43, 0x4d, 0x54];

pub const ISFT: [u8; 4] = [0x49, 0x53, 0x46, 0x54];

/// Whether the tag names a sub-chunk of the information list.
pub open spec fn info_tag(id: FourCC) -> bool {
    tag_is(id, IFIL) || tag_is(id, ISNG) || tag_is(id, INAM) || tag_is(id, IROM) || tag_is(id, IVER)
        || tag_is(id, ICRD) || tag_is(id, IENG) || tag_is(id, IPRD) || tag_is(id, ICOP) || tag_is(
        id,
        ICMT,
    ) || tag_is(id, ISFT)
}

/// The mathematical value of the bank's information.
pub struct InfoModel {
    pub version: SoundFontVersion,
    pub target_sound_engine: Seq<char>,
    pub bank_name: Seq<char>,
    pub rom_name: Seq<char>,
    pub rom_version: SoundFontVersion,
    pub creation_date: Seq<char>,
    pub author: Seq<char>,
    pub target_product: Seq<char>,
    pub copyright: Seq<char>,
    pub comments: Seq<char>,
    pub tools: Seq<char>,
}

/// Information with every field unset.
pub open spec fn empty_info() -> InfoModel {
    InfoModel {
        version: SoundFontVersion { major: 0, minor: 0 },
        target_sound_engine: Seq::empty(),
        bank_name: Seq::empty(),
        rom_name: Seq::empty(),
        rom_version: SoundFontVersion { major: 0, minor: 0 },
        creation_date: Seq::empty(),
        author: Seq::empty(),
        target_product: Seq::empty(),
        copyright: Seq::empty(),
        comments: Seq::empty(),
        tools: Seq::empty(),
    }
}

/// The value of `info`.
pub open spec fn info_model(info: SoundFontInfo) -> InfoModel {
    InfoModel {
        version: info.version,
        target_sound_engine: info.target_sound_engine@,
        bank_name: info.bank_name@,
        rom_name: info.rom_name@,
        rom_version: info.rom_version,
        creation_date: info.creation_date@,
        author: info.author@,
        target_product: info.target_product@,
        copyright: info.copyright@,
        comments: info.comments@,
        tools: info.tools@,
    }
}

/// The version stored at `p`.
pub open spec fn version_at(d: Seq<u8>, p: int) -> SoundFontVersion {
    SoundFontVersion { major: i16_le(d, p) as i16, minor: i16_le(d, p + 2) as i16 }
}

/// `m` with the sub-chunk `id`, whose body of `size` bytes is at `p`, recorded.
pub open spec fn info_step(m: InfoModel, id: FourCC, d: Seq<u8>, p: int, size: int) -> InfoModel {
    let t = text_at(d, p, size);
    if tag_is(id, IFIL) {
        InfoModel { version: version_at(d, p), ..m }
    } else if tag_is(id, ISNG) {
        InfoModel { target_sound_engine: t, ..m }
    } else if tag_is(id, INAM) {
        InfoModel { bank_name: t, ..m }
    } else if tag_is(id, IROM) {
        InfoModel { rom_name: t, ..m }
    } else if tag_is(id, IVER) {
        InfoModel { rom_version: version_at(d, p), ..m }
    } else if tag_is(id, ICRD) {
        InfoModel { creation_date: t, ..m }
    } else if tag_is(id, IENG) {
        InfoModel { author: t, ..m }
    } else if tag_is(id, IPRD) {
        InfoModel { target_product: t, ..m }
    } else if tag_is(id, ICOP) {
        InfoModel { copyright: t, ..m }
    } else if tag_is(id, ICMT) {
        InfoModel { comments: t, ..m }
    } else {
        InfoModel { tools: t, ..m }
    }
}

/// Walks the sub-chunks of an information list at `p`, `remaining` bytes of list body
/// being left, each later sub-chunk of a kind replacing an earlier one; `None` when a
/// sub-chunk does not decode.
pub open spec fn info_scan(d: Seq<u8>, p: int, remaining: int, m: InfoModel) -> Option<InfoModel>
    decreases remaining,
{
    if remaining <= 0 {
        Some(m)
    } else if p + 8 > d.len() || i32_le(d, p + 4) < 0 {
        None
    } else {
        let id = four_cc_at(d, p);
        let size = i32_le(d, p + 4);
        if !info_tag(id) || p + 8 + size > d.len() || ((tag_is(id, IFIL) || tag_is(id, IVER))
            && size < 4) {
            None
        } else {
            info_scan(
                d,
                p + 8 + size,
                next_remaining(remaining, size),
                info_step(m, id, d, p + 8, size),
            )
        }
    }
}

/// The information of the list at `p`, if the list decodes.
pub open spec fn info_found(d: Seq<u8>, p: int) -> Option<InfoModel> {
    info_scan(d, p + 12, list_body(i32_le(d, p + 4)), empty_info())
}

/// The format version of the information list at `p`, if the list decodes.
pub open spec fn info_version(d: Seq<u8>, p: int) -> Option<SoundFontVersion> {
    match info_found(d, p) {
        Some(m) => Some(m.version),
        None => None,
    }
}

/// A format or ROM version.
#[derive(Clone, Copy, Debug, PartialEq, Eq)]
pub struct SoundFontVersion {
    pub major: i16,
    pub minor: i16,
}

/// The bank's descriptive information.
#[derive(Debug)]
pub struct SoundFontInfo {
    pub version: SoundFontVersion,
    pub target_sound_engine: String,
    pub bank_name: String,
    pub rom_name: String,
    pub rom_version: SoundFontVersion,
    pub creation_date: String,
    pub author: String,
    pub target_product: String,
    pub copyright: String,
    pub comments: String,
    pub tools: String,
}

/// Reads a version sub-chunk of `size` bytes.
fn read_version(reader: &mut BinaryReader, size: usize) -> (r: Result<
    SoundFontVersion,
    ParseError,
>)
    ensures
        final(reader).data@ == old(reader).data@,
        r is Ok <==> size >= 4 && old(reader).has(size as int),
        r is Err ==> r == Err::<SoundFontVersion, ParseError>(ParseError::IoError),
        r is Ok ==> {
            &&& old(reader).advanced(size as int, final(reader))
            &&& r->Ok_0.major == i16_le(old(reader).data@, old(reader).pos as int)
            &&& r->Ok_0.minor == i16_le(old(reader).data@, old(reader).pos + 2)
        },
{
    if size < 4 || !(reader.pos <= reader.data.len() && size <= reader.data.len() - reader.pos) {
        return Err(ParseError::IoError);
    }
    let major = reader.read_i16()?;
    let minor = reader.read_i16()?;
    reader.discard_data(size - 4)?;
    Ok(SoundFontVersion { major, minor })
}

impl SoundFontInfo {
    /// Decodes the information list.
    pub fn new(reader: &mut BinaryReader) -> (r: Result<SoundFontInfo, ParseError>)
        ensures
            final(reader).data@ == old(reader).data@,
            list_header_error(old(reader).data@, old(reader).pos as int, INFO) is Some ==> r
                == Err::<SoundFontInfo, ParseError>(
                list_header_error(old(reader).data@, old(reader).pos as int, INFO)->Some_0,
            ),
            list_header_error(old(reader).data@, old(reader).pos as int, INFO) is None ==> (r is Ok
                <==> info_version(old(reader).data@, old(reader).pos as int) is Some),
            r is Ok ==> (info_found(old(reader).data@, old(reader).pos as int) matches Some(m)
                && info_model(r->Ok_0) == m),
            r is Ok ==> final(reader).pos == list_end(old(reader).data@, old(reader).pos as int) && old(reader).pos + 12 <= final(reader).pos <= final(reader).data@.len(),
    {
        let body = read_list_header(reader, INFO)?;
        let mut info = SoundFontInfo {
            version: SoundFontVersion { major: 0, minor: 0 },
            target_sound_engine: String::new(),
            bank_name: String::new(),
            rom_name: String::new(),
            rom_version: SoundFontVersion { major: 0, minor: 0 },
            creation_date: String::new(),
            author: String::new(),
            target_product: String::new(),
            copyright: String::new(),
            comments: String::new(),
            tools: String::new(),
        };
        let ghost d = reader.data@;
        let ghost p0 = reader.pos;
        assert(info_model(info) == empty_info());
        let mut consumed: usize = 0;
        while consumed < body
            invariant
                reader.data@ == d,
                d == old(reader).data@,
                list_header_error(d, old(reader).pos as int, INFO) is None,
                old(reader).pos + 12 == p0,
                reader.pos <= d.len(),
                p0 <= reader.pos,
                consumed <= body,
                list_end(d, old(reader).pos as int) == walk_end(d, reader.pos as int, body - consumed),
                info_found(d, old(reader).pos as int) == info_scan(
                    d,
                    reader.pos as int,
                    body - consumed,
                    info_model(info),
                ),
            decreases d.len() - reader.pos,
        {
            let ghost p = reader.pos as int;
            let ghost old_model = info_model(info);
            let (id, size) = read_sub_chunk_header(reader)?;
            if id.is(&IFIL) {
                info.version = read_version(reader, size)?;
            } else if id.is(&ISNG) {
                info.target_sound_engine = reader.read_fixed_length_string(size)?;
            } else if id.is(&INAM) {
                info.bank_name = reader.read_fixed_length_string(size)?;
            } else if id.is(&IROM) {
                info.rom_name = reader.read_fixed_length_string(size)?;
            } else if id.is(&IVER) {
                info.rom_version = read_version(reader, size)?;
            } else if id.is(&ICRD) {
                info.creation_date = reader.read_fixed_length_string(size)?;
            } else if id.is(&IENG) {
                info.author = reader.read_fixed_length_string(size)?;
            } else if id.is(&IPRD) {
                info.target_product = reader.read_fixed_length_string(size)?;
            } else if id.is(&ICOP) {
                info.copyright = reader.read_fixed_length_string(size)?;
            } else if id.is(&ICMT) {
                info.comments = reader.read_fixed_length_string(size)?;
            } else if id.is(&ISFT) {
                info.tools = reader.read_fixed_length_string(size)?;
            } else {
                return Err(ParseError::ListContainsUnknownId(id));
            }
            assert(info_model(info) == info_step(old_model, id, d, p + 8, size as int));
            assert(info_scan(d, p, body - consumed, old_model) == info_scan(
                d,
                p + 8 + size,
                next_remaining(body - consumed, size as int),
                info_model(info),
            ));
            assert(walk_end(d, p, body - consumed) == walk_end(
                d,
                p + 8 + size,
                next_remaining(body - consumed, size as int),
            ));
            consumed = if size < body - consumed && 8 < body - consumed - size {
                consumed + 8 + size
            } else {
                body
            };
        }
        Ok(info)
    }
}

} // verus!

//! The HWP 5.0 record grammar: each record carries a 10-bit tag id, a 10-bit
//! nesting level and a 12-bit size packed into one little-endian header word;
//! a size field of `0xFFF` announces a further 32-bit extended size word.
//! Decoding never fails: a structurally invalid tail is dropped and the valid
//! prefix is returned.

use crate::byteops::{byte_at, copy_range, le32, le32_bytes, push_u32_le, read_u32_le};
use vstd::prelude::*;

verus! {

pub const HWPTAG_DOCUMENT_PROPERTIES: u16 = 0x00;

pub const HWPTAG_ID_MAPPINGS: u16 = 0x01;

pub const HWPTAG_BIN_DATA: u16 = 0x02;

pub const HWPTAG_FACE_NAME: u16 = 0x03;

pub const HWPTAG_BORDER_FILL: u16 = 0x04;

pub const HWPTAG_CHAR_SHAPE: u16 = 0x05;

pub const HWPTAG_TAB_DEF: u16 = 0x06;

pub const HWPTAG_NUMBERING: u16 = 0x07;

pub const HWPTAG_BULLET: u16 = 0x08;

pub const HWPTAG_PARA_SHAPE: u16 = 0x09;

pub const HWPTAG_STYLE: u16 = 0x0A;

pub const HWPTAG_PARA_HEADER: u16 = 0x42;

pub const HWPTAG_PARA_TEXT: u16 = 0x43;

pub const HWPTAG_PARA_CHAR_SHAPE: u16 = 0x44;

pub const HWPTAG_PARA_LINE_SEG: u16 = 0x45;

pub const HWPTAG_PARA_RANGE_TAG: u16 = 0x46;

pub const HWPTAG_CTRL_HEADER: u16 = 0x47;

pub const HWPTAG_LIST_HEADER: u16 = 0x48;

pub const HWPTAG_PAGE_DEF: u16 = 0x49;

pub const HWPTAG_FOOTNOTE_SHAPE: u16 = 0x4A;

pub const HWPTAG_PAGE_BORDER_FILL: u16 = 0x4B;

pub const HWPTAG_SHAPE_COMPONENT: u16 = 0x4C;

pub const HWPTAG_TABLE: u16 = 0x4D;

pub const HWPTAG_SHAPE_COMPONENT_LINE: u16 = 0x4E;

pub const HWPTAG_SHAPE_COMPONENT_RECTANGLE: u16 = 0x4F;

pub const HWPTAG_SHAPE_COMPONENT_ELLIPSE: u16 = 0x50;

pub const HWPTAG_SHAPE_COMPONENT_POLYGON: u16 = 0x52;

pub const HWPTAG_SHAPE_COMPONENT_CURVE: u16 = 0x53;

pub const HWPTAG_SHAPE_COMPONENT_OLE: u16 = 0x54;

pub const HWPTAG_SHAPE_COMPONENT_PICTURE: u16 = 0x55;

pub const HWPTAG_SHAPE_COMPONENT_CONTAINER: u16 = 0x56;

pub const HWPTAG_CTRL_DATA: u16 = 0x57;

pub const HWPTAG_EQEDIT: u16 = 0x58;

/// A decoded record: tag id, nesting level, payload size and payload bytes.
pub struct HwpRecord {
    pub tag_id: u16,
    pub level: u16,
    pub size: u32,
    pub data: Vec<u8>,
}

/// The mathematical image of a record.
pub ghost struct RecordV {
    pub tag_id: u16,
    pub level: u16,
    pub size: u32,
    pub data: Seq<u8>,
}

impl View for HwpRecord {
    type V = RecordV;

    open spec fn view(&self) -> RecordV {
        RecordV { tag_id: self.tag_id, level: self.level, size: self.size, data: self.data@ }
    }
}

/// A record is well formed when its payload length matches its size field.
pub open spec fn record_wf(r: RecordV) -> bool {
    r.data.len() == r.size
}

/// The tag id: bits 0 to 9 of the header word.
pub open spec fn spec_header_tag(w: u32) -> u16 {
    (w & 0x3FF) as u16
}

/// The nesting level: bits 10 to 19 of the header word.
pub open spec fn spec_header_level(w: u32) -> u16 {
    ((w >> 10) & 0x3FF) as u16
}

/// The size field: bits 20 to 31 of the header word.
pub open spec fn spec_header_size_field(w: u32) -> u32 {
    (w >> 20) & 0xFFF
}

/// One decoding step from `pos`: the record read there, if the buffer holds
/// its header, any extended size word, and the full payload.
pub open spec fn spec_parse_next(b: Seq<u8>, pos: int) -> Option<RecordV> {
    if pos + 4 > b.len() {
        None
    } else {
        let w = le32(b, pos);
        let szf = spec_header_size_field(w);
        if szf == 0xFFF {
            if pos + 8 > b.len() {
                None
            } else {
                let size = le32(b, pos + 4);
                if pos + 8 + size > b.len() {
                    None
                } else {
                    Some(
                        RecordV {
                            tag_id: spec_header_tag(w),
                            level: spec_header_level(w),
                            size,
                            data: b.subrange(pos + 8, pos + 8 + size),
                        },
                    )
                }
            }
        } else {
            if pos + 4 + szf > b.len() {
                None
            } else {
                Some(
                    RecordV {
                        tag_id: spec_header_tag(w),
                        level: spec_header_level(w),
                        size: szf,
                        data: b.subrange(pos + 4, pos + 4 + szf),
                    },
                )
            }
        }
    }
}

/// The cursor position after one decoding step from `pos`: past the record on
/// success, and past whatever header words were read before a failed step.
pub open spec fn spec_next_pos(b: Seq<u8>, pos: int) -> int {
    if pos + 4 > b.len() {
        pos
    } else {
        let w = le32(b, pos);
        let szf = spec_header_size_field(w);
        if szf == 0xFFF {
            if pos + 8 > b.len() {
                pos + 4
            } else {
                let size = le32(b, pos + 4);
                if pos + 8 + size > b.len() {
                    pos + 8
                } else {
                    pos + 8 + size
                }
            }
        } else {
            if pos + 4 + szf > b.len() {
                pos + 4
            } else {
                pos + 4 + szf
            }
        }
    }
}

/// All records decodable from `pos` on: the longest valid prefix of the
/// remaining buffer, one record after the other.
pub open spec fn spec_parse_all(b: Seq<u8>, pos: int) -> Seq<RecordV>
    decreases b.len() - pos,
    when 0 <= pos
    via spec_parse_all_decreases
{
    match spec_parse_next(b, pos) {
        None => Seq::empty(),
        Some(r) => seq![r] + spec_parse_all(b, spec_next_pos(b, pos)),
    }
}

#[via_fn]
proof fn spec_parse_all_decreases(b: Seq<u8>, pos: int) {
    if spec_parse_next(b, pos) is Some {
        assert(spec_next_pos(b, pos) > pos);
        assert(spec_next_pos(b, pos) <= b.len());
    }
}

/// Every record that `spec_parse_all` yields is well formed.
pub proof fn lemma_parse_all_wf(b: Seq<u8>, pos: int)
    requires
        0 <= pos,
    ensures
        forall|i: int|
            0 <= i < spec_parse_all(b, pos).len() ==> record_wf(#[trigger] spec_parse_all(b, pos)[i]),
    decreases b.len() - pos,
{
    match spec_parse_next(b, pos) {
        None => {},
        Some(r) => {
            let nxt = spec_next_pos(b, pos);
            assert(record_wf(r));
            assert(pos < nxt <= b.len());
            lemma_parse_all_wf(b, nxt);
            assert forall|i: int| 0 <= i < spec_parse_all(b, pos).len() implies record_wf(
                #[trigger] spec_parse_all(b, pos)[i],
            ) by {
                if i == 0 {
                    assert(spec_parse_all(b, pos)[0] == r);
                } else {
                    assert(spec_parse_all(b, pos)[i] == spec_parse_all(b, nxt)[i - 1]);
                }
            }
        },
    }
}

/// Every record that `spec_parse_all` yields has a payload no longer than
/// the buffer it came from.
pub proof fn lemma_parse_all_data_len(b: Seq<u8>, pos: int)
    requires
        0 <= pos,
    ensures
        forall|i: int|
            0 <= i < spec_parse_all(b, pos).len() ==> (#[trigger] spec_parse_all(b, pos)[i]).data.len()
                <= b.len(),
    decreases b.len() - pos,
{
    match spec_parse_next(b, pos) {
        None => {},
        Some(r) => {
            let nxt = spec_next_pos(b, pos);
            assert(r.data.len() <= b.len());
            assert(pos < nxt <= b.len());
            lemma_parse_all_data_len(b, nxt);
            assert forall|i: int| 0 <= i < spec_parse_all(b, pos).len() implies (
            #[trigger] spec_parse_all(b, pos)[i]).data.len() <= b.len() by {
                if i == 0 {
                    assert(spec_parse_all(b, pos)[0] == r);
                } else {
                    assert(spec_parse_all(b, pos)[i] == spec_parse_all(b, nxt)[i - 1]);
                }
            }
        },
    }
}

/// The conventional name of a record tag, for diagnostics.
pub open spec fn spec_tag_name(tag: u16) -> Seq<char> {
    if tag == HWPTAG_DOCUMENT_PROPERTIES {
        "DOCUMENT_PROPERTIES"@
    } else if tag == HWPTAG_ID_MAPPINGS {
        "ID_MAPPINGS"@
    } else if tag == HWPTAG_BIN_DATA {
        "BIN_DATA"@
    } else if tag == HWPTAG_FACE_NAME {
        "FACE_NAME"@
    } else if tag == HWPTAG_CHAR_SHAPE {
        "CHAR_SHAPE"@
    } else if tag == HWPTAG_PARA_SHAPE {
        "PARA_SHAPE"@
    } else if tag == HWPTAG_STYLE {
        "STYLE"@
    } else if tag == HWPTAG_PARA_HEADER {
        "PARA_HEADER"@
    } else if tag == HWPTAG_PARA_TEXT {
        "PARA_TEXT"@
    } else if tag == HWPTAG_PARA_CHAR_SHAPE {
        "PARA_CHAR_SHAPE"@
    } else if tag == HWPTAG_PARA_LINE_SEG {
        "PARA_LINE_SEG"@
    } else if tag == HWPTAG_CTRL_HEADER {
        "CTRL_HEADER"@
    } else if tag == HWPTAG_TABLE {
        "TABLE"@
    } else if tag == HWPTAG_SHAPE_COMPONENT_PICTURE {
        "PICTURE"@
    } else {
        "UNKNOWN"@
    }
}

impl HwpRecord {
    /// The conventional name of the record's tag, for diagnostics.
    pub fn tag_name(&self) -> (r: &'static str)
        ensures
            r@ == spec_tag_name(self.tag_id),
    {
        match self.tag_id {
            HWPTAG_DOCUMENT_PROPERTIES => "DOCUMENT_PROPERTIES",
            HWPTAG_ID_MAPPINGS => "ID_MAPPINGS",
            HWPTAG_BIN_DATA => "BIN_DATA",
            HWPTAG_FACE_NAME => "FACE_NAME",
            HWPTAG_CHAR_SHAPE => "CHAR_SHAPE",
            HWPTAG_PARA_SHAPE => "PARA_SHAPE",
            HWPTAG_STYLE => "STYLE",
            HWPTAG_PARA_HEADER => "PARA_HEADER",
            HWPTAG_PARA_TEXT => "PARA_TEXT",
            HWPTAG_PARA_CHAR_SHAPE => "PARA_CHAR_SHAPE",
            HWPTAG_PARA_LINE_SEG => "PARA_LINE_SEG",
            HWPTAG_CTRL_HEADER => "CTRL_HEADER",
            HWPTAG_TABLE => "TABLE",
            HWPTAG_SHAPE_COMPONENT_PICTURE => "PICTURE",
            _ => "UNKNOWN",
        }
    }
}

/// A cursor over a byte buffer that yields records one by one.
pub struct RecordParser<'a> {
    pub data: &'a [u8],
    pub position: usize,
}

impl<'a> RecordParser<'a> {
    /// A parser that starts at the beginning of `data`.
    pub fn new(data: &'a [u8]) -> (r: Self)
        ensures
            r.data@ == data@,
            r.position == 0,
    {
        RecordParser { data, position: 0 }
    }

    /// Decodes the record at the cursor, if the buffer holds it whole, and
    /// moves the cursor past what was read.
    pub fn parse_next(&mut self) -> (r: Option<HwpRecord>)
        requires
            old(self).position <= old(self).data@.len(),
        ensures
            final(self).data@ == old(self).data@,
            final(self).position == spec_next_pos(old(self).data@, old(self).position as int),
            final(self).position <= final(self).data@.len(),
            match r {
                Some(rec) => spec_parse_next(old(self).data@, old(self).position as int)
                    == Some(rec@),
                None => spec_parse_next(old(self).data@, old(self).position as int) is None,
            },
    {
        let len = self.data.len();
        if len - self.position < 4 {
            return None;
        }
        let w = read_u32_le(self.data, self.position);
        self.position = self.position + 4;
        assert(w & 0x3FF <= 0x3FF && (w >> 10) & 0x3FF <= 0x3FF) by (bit_vector);
        let tag_id = (w & 0x3FF) as u16;
        let level = ((w >> 10) & 0x3FF) as u16;
        let size_field = (w >> 20) & 0xFFF;
        let size: u32;
        if size_field == 0xFFF {
            if len - self.position < 4 {
                return None;
            }
            size = read_u32_le(self.data, self.position);
            self.position = self.position + 4;
        } else {
            size = size_field;
        }
        if size as usize > len - self.position {
            return None;
        }
        let data = copy_range(self.data, self.position, self.position + size as usize);
        self.position = self.position + size as usize;
        Some(HwpRecord { tag_id, level, size, data })
    }

    /// Decodes every record the buffer holds, stopping at the first that is
    /// truncated; the valid prefix is returned.
    pub fn parse_all(&mut self) -> (r: Vec<HwpRecord>)
        requires
            old(self).position <= old(self).data@.len(),
        ensures
            final(self).data@ == old(self).data@,
            r@.map_values(|x: HwpRecord| x@) == spec_parse_all(
                old(self).data@,
                old(self).position as int,
            ),
    {
        let ghost b = self.data@;
        let ghost startpos = self.position as int;
        let mut records: Vec<HwpRecord> = Vec::new();
        proof {
            assert(records@.map_values(|x: HwpRecord| x@) + spec_parse_all(
                b,
                self.position as int,
            ) =~= spec_parse_all(b, self.position as int));
        }
        loop
            invariant
                self.data@ == b,
                b == old(self).data@,
                0 <= startpos,
                self.position <= b.len(),
                spec_parse_all(b, startpos) == records@.map_values(|x: HwpRecord| x@)
                    + spec_parse_all(b, self.position as int),
                startpos == old(self).position as int,
            decreases b.len() + 1 - self.position,
        {
            let ghost pre = records@.map_values(|x: HwpRecord| x@);
            let ghost pos0 = self.position as int;
            match self.parse_next() {
                Some(rec) => {
                    records.push(rec);
                    proof {
                        assert(records@.map_values(|x: HwpRecord| x@) =~= pre.push(rec@));
                        assert(spec_parse_all(b, pos0) =~= seq![rec@] + spec_parse_all(
                            b,
                            spec_next_pos(b, pos0),
                        ));
                        assert(pre + spec_parse_all(b, pos0) =~= pre.push(rec@)
                            + spec_parse_all(b, self.position as int));
                        assert(self.position > pos0);
                    }
                },
                None => {
                    proof {
                        assert(spec_parse_all(b, pos0) =~= Seq::<RecordV>::empty());
                        assert(pre + Seq::<RecordV>::empty() =~= pre);
                        // A failed step can move the cursor past header words,
                        // but the records already taken are the whole result.
                    }
                    return records;
                },
            }
        }
    }
}

/// The header word holding `tag_id`, `level` and `size_field`.
pub open spec fn spec_header_word(tag_id: u16, level: u16, size_field: u32) -> u32 {
    (tag_id as u32) | ((level as u32) << 10) | (size_field << 20)
}

/// The encoded header of a record: one word where the size fits in 12 bits
/// below the `0xFFF` sentinel, else a sentinel word followed by the size.
pub open spec fn spec_encode_header(tag_id: u16, level: u16, size: u32) -> Seq<u8> {
    if size < 0xFFF {
        le32_bytes(spec_header_word(tag_id, level, size))
    } else {
        le32_bytes(spec_header_word(tag_id, level, 0xFFF)) + le32_bytes(size)
    }
}

/// Encodes a record header for `tag_id`, `level` and `size`.
pub fn encode_record_header(tag_id: u16, level: u16, size: u32) -> (r: Vec<u8>)
    requires
        tag_id < 1024,
        level < 1024,
    ensures
        r@ == spec_encode_header(tag_id, level, size),
{
    let mut out: Vec<u8> = Vec::new();
    if size < 0xFFF {
        let w = (tag_id as u32) | ((level as u32) << 10) | (size << 20);
        push_u32_le(&mut out, w);
    } else {
        let w = (tag_id as u32) | ((level as u32) << 10) | (0xFFFu32 << 20);
        push_u32_le(&mut out, w);
        push_u32_le(&mut out, size);
        assert(out@ =~= le32_bytes(spec_header_word(tag_id, level, 0xFFF)) + le32_bytes(size));
    }
    out
}

proof fn lemma_header_word_fields(tag_id: u16, level: u16, size_field: u32)
    requires
        tag_id < 1024,
        level < 1024,
        size_field < 0x1000,
    ensures
        spec_header_tag(spec_header_word(tag_id, level, size_field)) == tag_id,
        spec_header_level(spec_header_word(tag_id, level, size_field)) == level,
        spec_header_size_field(spec_header_word(tag_id, level, size_field)) == size_field,
{
    let t = tag_id as u32;
    let l = level as u32;
    let s = size_field;
    assert((t | (l << 10) | (s << 20)) & 0x3FF == t && ((t | (l << 10) | (s << 20)) >> 10) & 0x3FF
        == l && ((t | (l << 10) | (s << 20)) >> 20) & 0xFFF == s || !(t < 1024 && l < 1024 && s
        < 0x1000)) by (bit_vector);
    assert(tag_id as u32 as u16 == tag_id);
    assert(level as u32 as u16 == level);
}

/// Record header round trip: a header encoded from any in-range triple, put
/// before a payload of matching length, decodes to exactly that triple and
/// payload; sizes of `0xFFF` and above go through the extended-size path.
pub proof fn lemma_record_header_round_trip(tag_id: u16, level: u16, size: u32, payload: Seq<u8>)
    requires
        tag_id < 1024,
        level < 1024,
        payload.len() == size,
    ensures
        spec_parse_next(spec_encode_header(tag_id, level, size) + payload, 0) == Some(
            RecordV { tag_id, level, size, data: payload },
        ),
        size >= 0xFFF ==> spec_encode_header(tag_id, level, size).len() == 8,
        size < 0xFFF ==> spec_encode_header(tag_id, level, size).len() == 4,
{
    let hdr = spec_encode_header(tag_id, level, size);
    let b = hdr + payload;
    if size < 0xFFF {
        let w = spec_header_word(tag_id, level, size);
        assert(b.subrange(0, 4) =~= le32_bytes(w));
        lemma_le32_eq(b, le32_bytes(w), 0);
        crate::byteops::lemma_le32_round_trip(w);
        lemma_header_word_fields(tag_id, level, size);
        assert(b.subrange(4, 4 + size as int) =~= payload);
    } else {
        let w = spec_header_word(tag_id, level, 0xFFF);
        assert(b.subrange(0, 4) =~= le32_bytes(w));
        lemma_le32_eq(b, le32_bytes(w), 0);
        crate::byteops::lemma_le32_round_trip(w);
        lemma_header_word_fields(tag_id, level, 0xFFF);
        assert(b.subrange(4, 8) =~= le32_bytes(size));
        lemma_le32_eq(b, le32_bytes(size), 4);
        crate::byteops::lemma_le32_round_trip(size);
        assert(b.subrange(8, 8 + size as int) =~= payload);
    }
}

/// The 32-bit word at `i` of `b` agrees with the word of any four-byte
/// sequence equal to `b[i..i+4]`.
proof fn lemma_le32_eq(b: Seq<u8>, w4: Seq<u8>, i: int)
    requires
        0 <= i,
        i + 4 <= b.len(),
        w4.len() == 4,
        b.subrange(i, i + 4) == w4,
    ensures
        le32(b, i) == le32(w4, 0),
{
    assert(b[i] == w4[0] && b[i + 1] == w4[1] && b[i + 2] == w4[2] && b[i + 3] == w4[3]);
}

} // verus!

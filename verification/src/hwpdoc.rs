//! Document-level decoding: the FileHeader's flag word and version bytes,
//! stream classification inside the compound container, the zlib-then-raw
//! inflate fallback, and image format sniffing for `BinData` payloads.

use crate::byteops::{byte_at, le32, read_u32_le};
use crate::strings::{push_dec, spec_dec};
use std::io::Read;
use vstd::prelude::*;

verus! {

/// The errors the parser reports, as the recovery policy names them: a file
/// that is not a compound container aborts the parse; a missing stream or a
/// failed decompression is absorbed by the caller feature by feature.
#[derive(Debug, Clone, Copy, PartialEq, Eq, Structural)]
pub enum HwpError {
    ContainerError,
    StreamMissing,
    DecompressFailed,
}

/// The seventeen FileHeader flags, bit 0 to bit 16 of the flag word.
#[derive(Debug, Clone, Copy)]
pub struct HwpFlags {
    pub compressed: bool,
    pub encrypted: bool,
    pub distributed: bool,
    pub script_saved: bool,
    pub drm_protected: bool,
    pub xml_template: bool,
    pub history: bool,
    pub signature: bool,
    pub certificate_encrypted: bool,
    pub certificate_drm: bool,
    pub ccl: bool,
    pub mobile_optimized: bool,
    pub private_info_security: bool,
    pub track_changes: bool,
    pub kogl: bool,
    pub video_control: bool,
    pub order_field_control: bool,
}

/// The flags decoded from the word `w`: bit `i` switches flag `i` on.
pub open spec fn spec_flags_of(w: u32) -> HwpFlags {
    HwpFlags {
        compressed: w & 0x01 != 0,
        encrypted: w & 0x02 != 0,
        distributed: w & 0x04 != 0,
        script_saved: w & 0x08 != 0,
        drm_protected: w & 0x10 != 0,
        xml_template: w & 0x20 != 0,
        history: w & 0x40 != 0,
        signature: w & 0x80 != 0,
        certificate_encrypted: w & 0x100 != 0,
        certificate_drm: w & 0x200 != 0,
        ccl: w & 0x400 != 0,
        mobile_optimized: w & 0x800 != 0,
        private_info_security: w & 0x1000 != 0,
        track_changes: w & 0x2000 != 0,
        kogl: w & 0x4000 != 0,
        video_control: w & 0x8000 != 0,
        order_field_control: w & 0x10000 != 0,
    }
}

/// The conservative default: compressed, everything else off. Most real
/// files are compressed, so a missing or truncated FileHeader is treated as
/// compressed.
pub open spec fn spec_default_flags() -> HwpFlags {
    HwpFlags {
        compressed: true,
        encrypted: false,
        distributed: false,
        script_saved: false,
        drm_protected: false,
        xml_template: false,
        history: false,
        signature: false,
        certificate_encrypted: false,
        certificate_drm: false,
        ccl: false,
        mobile_optimized: false,
        private_info_security: false,
        track_changes: false,
        kogl: false,
        video_control: false,
        order_field_control: false,
    }
}

impl Default for HwpFlags {
    /// The conservative default flags.
    fn default() -> (r: Self)
        ensures
            r == spec_default_flags(),
    {
        HwpFlags {
            compressed: true,
            encrypted: false,
            distributed: false,
            script_saved: false,
            drm_protected: false,
            xml_template: false,
            history: false,
            signature: false,
            certificate_encrypted: false,
            certificate_drm: false,
            ccl: false,
            mobile_optimized: false,
            private_info_security: false,
            track_changes: false,
            kogl: false,
            video_control: false,
            order_field_control: false,
        }
    }
}

impl HwpFlags {
    /// Decodes the flag word from its four little-endian bytes; fewer than
    /// four bytes give the conservative default.
    pub fn from_bytes(data: &[u8]) -> (r: Self)
        ensures
            data@.len() < 4 ==> r == spec_default_flags(),
            data@.len() >= 4 ==> r == spec_flags_of(le32(data@, 0)),
    {
        if data.len() < 4 {
            return HwpFlags::default();
        }
        let flags = read_u32_le(data, 0);
        HwpFlags {
            compressed: (flags & 0x01) != 0,
            encrypted: (flags & 0x02) != 0,
            distributed: (flags & 0x04) != 0,
            script_saved: (flags & 0x08) != 0,
            drm_protected: (flags & 0x10) != 0,
            xml_template: (flags & 0x20) != 0,
            history: (flags & 0x40) != 0,
            signature: (flags & 0x80) != 0,
            certificate_encrypted: (flags & 0x100) != 0,
            certificate_drm: (flags & 0x200) != 0,
            ccl: (flags & 0x400) != 0,
            mobile_optimized: (flags & 0x800) != 0,
            private_info_security: (flags & 0x1000) != 0,
            track_changes: (flags & 0x2000) != 0,
            kogl: (flags & 0x4000) != 0,
            video_control: (flags & 0x8000) != 0,
            order_field_control: (flags & 0x10000) != 0,
        }
    }
}

/// The version string of a FileHeader: bytes 32 to 35 are revision, build,
/// minor and major in ascending significance, formatted as
/// `HWP major.minor.build.revision`; a header below 36 bytes is `Unknown`.
pub open spec fn spec_version_string(b: Seq<u8>) -> Seq<char> {
    if b.len() >= 36 {
        seq!['H', 'W', 'P', ' '] + spec_dec(b[35] as int) + seq!['.'] + spec_dec(b[34] as int)
            + seq!['.'] + spec_dec(b[33] as int) + seq!['.'] + spec_dec(b[32] as int)
    } else {
        seq!['U', 'n', 'k', 'n', 'o', 'w', 'n']
    }
}

/// Formats the file version stored in a FileHeader payload.
pub fn parse_version(data: &[u8]) -> (r: String)
    ensures
        r@ == spec_version_string(data@),
{
    if data.len() >= 36 {
        let major = byte_at(data, 35);
        let minor = byte_at(data, 34);
        let build = byte_at(data, 33);
        let revision = byte_at(data, 32);
        let mut out = String::from_str("HWP ");
        push_dec(&mut out, major as u64);
        out.push('.');
        push_dec(&mut out, minor as u64);
        out.push('.');
        push_dec(&mut out, build as u64);
        out.push('.');
        push_dec(&mut out, revision as u64);
        proof {
            reveal_strlit("HWP ");
            assert("HWP "@ =~= seq!['H', 'W', 'P', ' ']);
            assert(out@ =~= spec_version_string(data@));
        }
        out
    } else {
        let out = String::from_str("Unknown");
        proof {
            reveal_strlit("Unknown");
            assert("Unknown"@ =~= seq!['U', 'n', 'k', 'n', 'o', 'w', 'n']);
        }
        out
    }
}

/// The sniffed format of an image payload: the first matching magic-byte
/// prefix in a fixed priority order, with the WEBP form needing twelve
/// bytes; payloads below four bytes and unknown prefixes give the empty
/// name.
pub open spec fn spec_image_format(b: Seq<u8>) -> Seq<char> {
    if b.len() < 4 {
        Seq::empty()
    } else if b[0] == 0xFF && b[1] == 0xD8 && b[2] == 0xFF {
        seq!['j', 'p', 'e', 'g']
    } else if b[0] == 0x89 && b[1] == 0x50 && b[2] == 0x4E && b[3] == 0x47 {
        seq!['p', 'n', 'g']
    } else if b[0] == 0x47 && b[1] == 0x49 && b[2] == 0x46 {
        seq!['g', 'i', 'f']
    } else if b[0] == 0x42 && b[1] == 0x4D {
        seq!['b', 'm', 'p']
    } else if b[0] == 0xD7 && b[1] == 0xCD && b[2] == 0xC6 && b[3] == 0x9A {
        seq!['w', 'm', 'f']
    } else if b[0] == 0x01 && b[1] == 0x00 && b[2] == 0x00 && b[3] == 0x00 {
        seq!['e', 'm', 'f']
    } else if b[0] == 0x52 && b[1] == 0x49 && b[2] == 0x46 && b[3] == 0x46 && b.len() >= 12 && b[8]
        == 0x57 && b[9] == 0x45 && b[10] == 0x42 && b[11] == 0x50 {
        seq!['w', 'e', 'b', 'p']
    } else {
        Seq::empty()
    }
}

/// Sniffs the image format of a payload by its magic bytes.
pub fn detect_image_format(data: &[u8]) -> (r: String)
    ensures
        r@ == spec_image_format(data@),
{
    proof {
        reveal_strlit("jpeg");
        reveal_strlit("png");
        reveal_strlit("gif");
        reveal_strlit("bmp");
        reveal_strlit("wmf");
        reveal_strlit("emf");
        reveal_strlit("webp");
        assert("jpeg"@ =~= seq!['j', 'p', 'e', 'g']);
        assert("png"@ =~= seq!['p', 'n', 'g']);
        assert("gif"@ =~= seq!['g', 'i', 'f']);
        assert("bmp"@ =~= seq!['b', 'm', 'p']);
        assert("wmf"@ =~= seq!['w', 'm', 'f']);
        assert("emf"@ =~= seq!['e', 'm', 'f']);
        assert("webp"@ =~= seq!['w', 'e', 'b', 'p']);
    }
    if data.len() < 4 {
        return String::new();
    }
    let b0 = byte_at(data, 0);
    let b1 = byte_at(data, 1);
    let b2 = byte_at(data, 2);
    let b3 = byte_at(data, 3);
    if b0 == 0xFF && b1 == 0xD8 && b2 == 0xFF {
        String::from_str("jpeg")
    } else if b0 == 0x89 && b1 == 0x50 && b2 == 0x4E && b3 == 0x47 {
        String::from_str("png")
    } else if b0 == 0x47 && b1 == 0x49 && b2 == 0x46 {
        String::from_str("gif")
    } else if b0 == 0x42 && b1 == 0x4D {
        String::from_str("bmp")
    } else if b0 == 0xD7 && b1 == 0xCD && b2 == 0xC6 && b3 == 0x9A {
        String::from_str("wmf")
    } else if b0 == 0x01 && b1 == 0x00 && b2 == 0x00 && b3 == 0x00 {
        String::from_str("emf")
    } else if b0 == 0x52 && b1 == 0x49 && b2 == 0x46 && b3 == 0x46 && data.len() >= 12 && byte_at(
        data,
        8,
    ) == 0x57 && byte_at(data, 9) == 0x45 && byte_at(data, 10) == 0x42 && byte_at(data, 11)
        == 0x50 {
        String::from_str("webp")
    } else {
        String::new()
    }
}

/// What a zlib-framed inflate of the bytes yields, or `None` where the
/// framing or stream is invalid. The result depends on the bytes alone.
pub uninterp spec fn zlib_decoded(b: Seq<u8>) -> Option<Seq<u8>>;

/// What a raw-DEFLATE inflate of the bytes yields, or `None` where the
/// stream is invalid. The result depends on the bytes alone.
pub uninterp spec fn raw_inflated(b: Seq<u8>) -> Option<Seq<u8>>;

/// Relies on flate2's `ZlibDecoder`: inflates a zlib-framed stream, a pure
/// function of the input bytes; a read error reports an invalid stream.
#[verifier::external_body]
fn inflate_zlib(data: &[u8]) -> (r: Option<Vec<u8>>)
    ensures
        match r {
            Some(v) => zlib_decoded(data@) == Some(v@),
            None => zlib_decoded(data@) is None,
        },
{
    let mut decoder = flate2::read::ZlibDecoder::new(data);
    let mut out = Vec::new();
    match decoder.read_to_end(&mut out) {
        Ok(_) => Some(out),
        Err(_) => None,
    }
}

/// Relies on flate2's `DeflateDecoder`: inflates a raw DEFLATE stream
/// without a zlib header, a pure function of the input bytes; a read error
/// reports an invalid stream.
#[verifier::external_body]
fn inflate_raw(data: &[u8]) -> (r: Option<Vec<u8>>)
    ensures
        match r {
            Some(v) => raw_inflated(data@) == Some(v@),
            None => raw_inflated(data@) is None,
        },
{
    let mut decoder = flate2::read::DeflateDecoder::new(data);
    let mut out = Vec::new();
    match decoder.read_to_end(&mut out) {
        Ok(_) => Some(out),
        Err(_) => None,
    }
}

/// What the decompression fallback yields: the zlib inflate where it
/// succeeds with output, else the raw-DEFLATE inflate, else nothing.
pub open spec fn spec_decompressed(b: Seq<u8>) -> Option<Seq<u8>> {
    match zlib_decoded(b) {
        Some(v) => if v.len() > 0 {
            Some(v)
        } else {
            raw_inflated(b)
        },
        None => raw_inflated(b),
    }
}

/// Decompresses an HWP stream: a zlib-framed inflate is tried first, and
/// where its framing is invalid or its output empty, the same bytes are
/// inflated as raw DEFLATE (the framing HWP commonly uses); only when both
/// attempts fail is `DecompressFailed` reported.
pub fn decompress_zlib(data: &[u8]) -> (r: Result<Vec<u8>, HwpError>)
    ensures
        match r {
            Ok(v) => spec_decompressed(data@) == Some(v@),
            Err(e) => e == HwpError::DecompressFailed && spec_decompressed(data@) is None,
        },
{
    match inflate_zlib(data) {
        Some(v) => {
            if v.len() > 0 {
                return Ok(v);
            }
            match inflate_raw(data) {
                Some(w) => Ok(w),
                None => Err(HwpError::DecompressFailed),
            }
        },
        None => {
            match inflate_raw(data) {
                Some(w) => Ok(w),
                None => Err(HwpError::DecompressFailed),
            }
        },
    }
}

/// What a `BinData` payload decodes to: the decompression fallback where it
/// succeeds, else the raw bytes unchanged (some entries are stored
/// uncompressed).
pub open spec fn spec_bin_data(b: Seq<u8>) -> Seq<u8> {
    match spec_decompressed(b) {
        Some(v) => v,
        None => b,
    }
}

/// Decodes a `BinData` payload, falling back to the raw bytes where both
/// decompression attempts fail.
pub fn decode_bin_data(data: Vec<u8>) -> (r: Vec<u8>)
    ensures
        r@ == spec_bin_data(data@),
{
    match decompress_zlib(data.as_slice()) {
        Ok(v) => v,
        Err(_) => data,
    }
}

/// An embedded image: its output file name, the `BinData` stream it came
/// from, its sniffed format and its (decoded) bytes.
#[derive(Debug, Clone)]
pub struct ImageData {
    pub name: String,
    pub original_name: String,
    pub format: String,
    pub data: Vec<u8>,
}

/// Document-level metadata decoded from the FileHeader and stream tree.
#[derive(Debug, Clone)]
pub struct Metadata {
    pub version: String,
    pub compressed: bool,
    pub encrypted: bool,
    pub section_count: usize,
    pub bin_data_count: usize,
}

/// A summary of the compound container's structure.
#[derive(Debug)]
pub struct FileStructure {
    pub total_streams: usize,
    pub streams: Vec<String>,
    pub section_count: usize,
    pub bin_data_count: usize,
    pub compressed: bool,
    pub encrypted: bool,
}

/// The output file name of an image: the stream's short name, with the
/// sniffed extension appended unless the name already ends with it.
pub open spec fn spec_image_name(name: Seq<char>, format: Seq<char>) -> Seq<char> {
    let suffix = seq!['.'] + format;
    if suffix.len() <= name.len() && name.subrange(
        name.len() - suffix.len(),
        name.len() as int,
    ) == suffix {
        name
    } else {
        name + suffix
    }
}

/// Builds the image asset of one `BinData` stream: the payload is decoded,
/// the format sniffed, and unrecognized content is dropped.
pub fn make_image_data(name: String, raw: Vec<u8>) -> (r: Option<ImageData>)
    ensures
        spec_image_format(spec_bin_data(raw@)).len() == 0 <==> r is None,
        r matches Some(img) ==> {
            &&& img.format@ == spec_image_format(spec_bin_data(raw@))
            &&& img.data@ == spec_bin_data(raw@)
            &&& img.original_name@ == name@
            &&& img.name@ == spec_image_name(name@, img.format@)
        },
{
    let data = decode_bin_data(raw);
    let format = detect_image_format(data.as_slice());
    if format.as_str().unicode_len() == 0 {
        return None;
    }
    let mut suffix = String::from_str(".");
    suffix.append(format.as_str());
    proof {
        reveal_strlit(".");
        assert("."@ =~= seq!['.']);
    }
    let filename = if crate::strings::ends_with_sub(name.as_str(), suffix.as_str()) {
        name.clone()
    } else {
        let mut n = name.clone();
        n.append(suffix.as_str());
        n
    };
    proof {
        let sfx = seq!['.'] + format@;
        if sfx.len() <= name@.len() && crate::strings::match_at(
            name@,
            sfx,
            name@.len() - sfx.len(),
        ) {
            assert(name@.subrange(name@.len() - sfx.len(), name@.len() as int) == sfx);
        }
    }
    Some(ImageData { name: filename, original_name: name, format, data })
}

/// How many stream paths name a body-text section.
pub open spec fn spec_section_count(ss: Seq<Seq<char>>, i: int) -> int
    decreases ss.len() - i,
    when 0 <= i
{
    if i >= ss.len() {
        0
    } else {
        (if crate::strings::match_at(ss[i], "/BodyText/Section"@, 0) {
            1int
        } else {
            0int
        }) + spec_section_count(ss, i + 1)
    }
}

/// Counts the streams under `BodyText` whose path names a section.
pub fn count_sections(streams: &Vec<String>) -> (r: usize)
    ensures
        r as int == spec_section_count(streams@.map_values(|s: String| s@), 0),
{
    let ghost ss = streams@.map_values(|s: String| s@);
    let mut count: usize = 0;
    let mut i: usize = 0;
    proof {
        assert(spec_section_count(ss, 0) <= ss.len()) by {
            lemma_section_count_bound(ss, 0);
        }
    }
    while i < streams.len()
        invariant
            ss == streams@.map_values(|s: String| s@),
            i <= ss.len(),
            count as int + spec_section_count(ss, i as int) == spec_section_count(ss, 0),
            count <= i,
        decreases ss.len() - i,
    {
        if crate::strings::starts_with_sub(streams[i].as_str(), "/BodyText/Section") {
            count += 1;
        }
        i += 1;
    }
    count
}

proof fn lemma_section_count_bound(ss: Seq<Seq<char>>, i: int)
    requires
        0 <= i <= ss.len(),
    ensures
        0 <= spec_section_count(ss, i) <= ss.len() - i,
    decreases ss.len() - i,
{
    if i < ss.len() {
        lemma_section_count_bound(ss, i + 1);
    }
}

/// The short names of the `BinData` streams: each path under `/BinData/`
/// with that prefix stripped.
pub open spec fn spec_bin_names(ss: Seq<Seq<char>>, i: int) -> Seq<Seq<char>>
    decreases ss.len() - i,
    when 0 <= i
{
    if i >= ss.len() {
        Seq::empty()
    } else {
        let rest = spec_bin_names(ss, i + 1);
        if crate::strings::match_at(ss[i], "/BinData/"@, 0) {
            seq![ss[i].skip("/BinData/"@.len() as int)] + rest
        } else {
            rest
        }
    }
}

/// Lists the short names of the `BinData` streams among the stream paths.
pub fn bin_data_names(streams: &Vec<String>) -> (r: Vec<String>)
    ensures
        r@.map_values(|s: String| s@) == spec_bin_names(streams@.map_values(|s: String| s@), 0),
{
    let ghost ss = streams@.map_values(|s: String| s@);
    let mut out: Vec<String> = Vec::new();
    let mut i: usize = 0;
    proof {
        assert(out@.map_values(|s: String| s@) + spec_bin_names(ss, 0) =~= spec_bin_names(ss, 0));
    }
    while i < streams.len()
        invariant
            ss == streams@.map_values(|s: String| s@),
            i <= ss.len(),
            spec_bin_names(ss, 0) == out@.map_values(|s: String| s@) + spec_bin_names(
                ss,
                i as int,
            ),
        decreases ss.len() - i,
    {
        let ghost pre = out@.map_values(|s: String| s@);
        let s = &streams[i];
        if crate::strings::starts_with_sub(s.as_str(), "/BinData/") {
            let prefix_len = "/BinData/".unicode_len();
            let total = s.as_str().unicode_len();
            let short = s.as_str().substring_char(prefix_len, total);
            out.push(String::from_str(short));
            proof {
                assert(ss[i as int].skip("/BinData/"@.len() as int) =~= ss[i as int].subrange(
                    "/BinData/"@.len() as int,
                    ss[i as int].len() as int,
                ));
                assert(out@.map_values(|x: String| x@) =~= pre.push(
                    ss[i as int].skip("/BinData/"@.len() as int),
                ));
                assert(pre.push(ss[i as int].skip("/BinData/"@.len() as int)) + spec_bin_names(
                    ss,
                    i + 1,
                ) =~= pre + spec_bin_names(ss, i as int));
            }
        }
        i += 1;
    }
    proof {
        assert(spec_bin_names(ss, i as int) =~= Seq::<Seq<char>>::empty());
        assert(out@.map_values(|s: String| s@) + Seq::<Seq<char>>::empty() =~= out@.map_values(
            |s: String| s@,
        ));
    }
    out
}

} // verus!

use crate::hwptext::{
    spec_formatted_text, spec_shape_pairs, spec_char_shape_of, CharShape, ParaCharShapeMapping,
    extract_para_text_formatted, parse_char_shape, parse_para_char_shape,
};
use crate::record::{
    spec_parse_all, HwpRecord, RecordParser, RecordV, HWPTAG_CHAR_SHAPE, HWPTAG_PARA_CHAR_SHAPE,
    HWPTAG_PARA_HEADER, HWPTAG_PARA_TEXT,
};
use crate::strings::{spec_join, spec_trim, trim_str};
use std::collections::HashMap;

verus! {

broadcast use vstd::std_specs::hash::group_hash_axioms;

/// The paragraph scan's state: the pending paragraph's raw text payload, the
/// pending style mapping, and the finished paragraph texts.
pub ghost struct PScanV {
    pub text: Option<Seq<u8>>,
    pub mapping: Option<Seq<(u32, u32)>>,
    pub paras: Seq<Seq<char>>,
}

/// Finalizing the pending paragraph: its styled text is kept where it does
/// not trim to nothing, and the pending text and mapping are cleared;
/// without pending text nothing changes.
pub open spec fn spec_finalize_para(st: PScanV, shapes: Map<u32, CharShape>) -> PScanV {
    match st.text {
        Some(b) => {
            let t = spec_formatted_text(b, st.mapping, shapes);
            PScanV {
                text: None,
                mapping: None,
                paras: if spec_trim(t).len() > 0 {
                    st.paras.push(t)
                } else {
                    st.paras
                },
            }
        },
        None => st,
    }
}

/// The paragraph scan over the first `i` records.
pub open spec fn spec_para_scan(recs: Seq<RecordV>, i: int, shapes: Map<u32, CharShape>) -> PScanV
    decreases i,
    when 0 <= i
{
    if i <= 0 {
        PScanV { text: None, mapping: None, paras: Seq::empty() }
    } else {
        let st = spec_para_scan(recs, i - 1, shapes);
        let rec = recs[i - 1];
        if rec.tag_id == HWPTAG_PARA_HEADER {
            spec_finalize_para(st, shapes)
        } else if rec.tag_id == HWPTAG_PARA_TEXT {
            PScanV { text: Some(rec.data), ..st }
        } else if rec.tag_id == HWPTAG_PARA_CHAR_SHAPE {
            PScanV {
                mapping: if rec.data.len() >= 8 {
                    Some(spec_shape_pairs(rec.data, 0))
                } else {
                    None
                },
                ..st
            }
        } else {
            st
        }
    }
}

/// One section's reconstructed text: its paragraphs, the pending one
/// finalized at the end of the records, joined by newlines.
pub open spec fn spec_section_text(recs: Seq<RecordV>, shapes: Map<u32, CharShape>) -> Seq<char> {
    spec_join(
        spec_finalize_para(spec_para_scan(recs, recs.len() as int, shapes), shapes).paras,
        seq!['\n'],
    )
}

/// The style mapping a pending `ParaCharShapeMapping` denotes.
pub open spec fn mapping_of(m: Option<ParaCharShapeMapping>) -> Option<Seq<(u32, u32)>> {
    match m {
        Some(mm) => Some(mm.mappings@),
        None => None,
    }
}

/// The pending text a stashed payload denotes.
pub open spec fn text_of(t: Option<Vec<u8>>) -> Option<Seq<u8>> {
    match t {
        Some(v) => Some(v@),
        None => None,
    }
}

fn finalize_para(
    cur_text: &mut Option<Vec<u8>>,
    cur_map: &mut Option<ParaCharShapeMapping>,
    paras: &mut Vec<String>,
    shapes: &HashMap<u32, CharShape>,
)
    requires
        match *old(cur_text) {
            Some(v) => v@.len() <= 0xFFFF_FFFF,
            None => true,
        },
    ensures
        (PScanV {
            text: text_of(*final(cur_text)),
            mapping: mapping_of(*final(cur_map)),
            paras: final(paras)@.map_values(|s: String| s@),
        }) == spec_finalize_para(
            PScanV {
                text: text_of(*old(cur_text)),
                mapping: mapping_of(*old(cur_map)),
                paras: old(paras)@.map_values(|s: String| s@),
            },
            shapes@,
        ),
{
    let taken = cur_text.take();
    match taken {
        Some(text_data) => {
            let ghost pre = paras@.map_values(|s: String| s@);
            let text = extract_para_text_formatted(
                text_data.as_slice(),
                cur_map.as_ref(),
                shapes,
            );
            let trimmed = trim_str(text.as_str());
            if trimmed.as_str().unicode_len() > 0 {
                paras.push(text);
                proof {
                    assert(paras@.map_values(|s: String| s@) =~= pre.push(
                        spec_formatted_text(
                            text_data@,
                            mapping_of(*old(cur_map)),
                            shapes@,
                        ),
                    ));
                }
            }
            *cur_map = None;
        },
        None => {},
    }
}

/// Reconstructs one section's text from its decoded records: paragraphs are
/// regrouped at `PARA_HEADER` boundaries, each paragraph's `PARA_TEXT`
/// payload is styled by its `PARA_CHAR_SHAPE` mapping and the shape table,
/// and paragraphs that trim to nothing are dropped.
pub fn parse_section_records_formatted(data: &[u8], char_shapes: &HashMap<u32, CharShape>) -> (r:
    String)
    requires
        data@.len() <= 0xFFFF_FFFF,
    ensures
        r@ == spec_section_text(spec_parse_all(data@, 0), char_shapes@),
{
    let ghost recs = spec_parse_all(data@, 0);
    proof {
        crate::record::lemma_parse_all_data_len(data@, 0);
    }
    let mut parser = RecordParser::new(data);
    let records = parser.parse_all();
    let mut cur_text: Option<Vec<u8>> = None;
    let mut cur_map: Option<ParaCharShapeMapping> = None;
    let mut paras: Vec<String> = Vec::new();
    let mut j: usize = 0;
    proof {
        assert(paras@.map_values(|s: String| s@) =~= Seq::<Seq<char>>::empty());
    }
    while j < records.len()
        invariant
            records@.map_values(|x: HwpRecord| x@) == recs,
            recs == spec_parse_all(data@, 0),
            data@.len() <= 0xFFFF_FFFF,
            j <= records@.len(),
            spec_para_scan(recs, j as int, char_shapes@) == (PScanV {
                text: text_of(cur_text),
                mapping: mapping_of(cur_map),
                paras: paras@.map_values(|s: String| s@),
            }),
            match cur_text {
                Some(v) => v@.len() <= 0xFFFF_FFFF,
                None => true,
            },
        decreases records@.len() - j,
    {
        let ghost st = spec_para_scan(recs, j as int, char_shapes@);
        proof {
            crate::record::lemma_parse_all_data_len(data@, 0);
            assert(recs[j as int] == records@[j as int]@);
            assert(recs[j as int].data.len() <= data@.len());
        }
        let rec = &records[j];
        if rec.tag_id == HWPTAG_PARA_HEADER {
            finalize_para(&mut cur_text, &mut cur_map, &mut paras, char_shapes);
        } else if rec.tag_id == HWPTAG_PARA_TEXT {
            cur_text = Some(rec.data.clone());
        } else if rec.tag_id == HWPTAG_PARA_CHAR_SHAPE {
            cur_map = parse_para_char_shape(rec.data.as_slice());
        }
        j += 1;
    }
    finalize_para(&mut cur_text, &mut cur_map, &mut paras, char_shapes);
    let joined = crate::strings::join_strings(&paras, "\n");
    proof {
        reveal_strlit("\n");
        assert("\n"@ =~= seq!['\n']);
    }
    joined
}

/// The shape table the DocInfo records define: the `n`-th `CHAR_SHAPE`
/// record's decoded shape under key `n` (wrapping at 32 bits), records too
/// short to decode claiming an ordinal but no entry.
pub open spec fn spec_char_shapes(recs: Seq<RecordV>, i: int) -> (Map<u32, CharShape>, u32)
    decreases i,
    when 0 <= i
{
    if i <= 0 {
        (Map::empty(), 0u32)
    } else {
        let (m, idx) = spec_char_shapes(recs, i - 1);
        let rec = recs[i - 1];
        if rec.tag_id == HWPTAG_CHAR_SHAPE {
            let m2 = if rec.data.len() >= 50 {
                m.insert(idx, spec_char_shape_of(crate::byteops::le32(rec.data, 46)))
            } else {
                m
            };
            (m2, ((idx + 1) % 0x1_0000_0000) as u32)
        } else {
            (m, idx)
        }
    }
}

/// Collects the character shapes the DocInfo stream defines, keyed by their
/// ordinal among the `CHAR_SHAPE` records.
pub fn collect_char_shapes(data: &[u8]) -> (r: HashMap<u32, CharShape>)
    ensures
        r@ == spec_char_shapes(spec_parse_all(data@, 0), spec_parse_all(data@, 0).len() as int).0,
{
    let ghost recs = spec_parse_all(data@, 0);
    let mut parser = RecordParser::new(data);
    let records = parser.parse_all();
    let mut shapes: HashMap<u32, CharShape> = HashMap::new();
    let mut shape_index: u32 = 0;
    let mut j: usize = 0;
    while j < records.len()
        invariant
            records@.map_values(|x: HwpRecord| x@) == recs,
            j <= records@.len(),
            (shapes@, shape_index) == spec_char_shapes(recs, j as int),
        decreases records@.len() - j,
    {
        proof {
            assert(recs[j as int] == records@[j as int]@);
        }
        let rec = &records[j];
        if rec.tag_id == HWPTAG_CHAR_SHAPE {
            match parse_char_shape(rec.data.as_slice()) {
                Some(shape) => {
                    shapes.insert(shape_index, shape);
                },
                None => {},
            }
            shape_index = shape_index.wrapping_add(1);
        }
        j += 1;
    }
    shapes
}

} // verus!

verus! {

/// The payload of a stream that is compressed only when the document says
/// so: the raw bytes where the document is uncompressed, else the
/// decompression fallback.
pub fn read_compressed_payload(raw: Vec<u8>, compressed: bool) -> (r: Result<Vec<u8>, HwpError>)
    ensures
        !compressed ==> (r matches Ok(v) && v@ == raw@),
        compressed ==> match r {
            Ok(v) => spec_decompressed(raw@) == Some(v@),
            Err(e) => e == HwpError::DecompressFailed && spec_decompressed(raw@) is None,
        },
{
    if !compressed {
        return Ok(raw);
    }
    decompress_zlib(raw.as_slice())
}

/// The banner a section carries when the document has several sections.
pub open spec fn spec_section_banner(n: int) -> Seq<char> {
    seq!['=', '=', '=', ' ', 'S', 'e', 'c', 't', 'i', 'o', 'n', ' '] + spec_dec(n) + seq![
        ' ',
        '=',
        '=',
        '=',
        '\n',
    ]
}

/// The nonempty section texts from section `i` on, each reconstructed from
/// its records and prefixed with its banner when the document has more than
/// one section; unreadable sections contribute nothing.
pub open spec fn spec_section_parts(
    secs: Seq<Option<Seq<u8>>>,
    i: int,
    shapes: Map<u32, CharShape>,
) -> Seq<Seq<char>>
    decreases secs.len() - i,
    when 0 <= i
{
    if i >= secs.len() {
        Seq::empty()
    } else {
        let rest = spec_section_parts(secs, i + 1, shapes);
        match secs[i] {
            Some(b) => {
                let t = spec_section_text(spec_parse_all(b, 0), shapes);
                if t.len() > 0 {
                    let part = if secs.len() > 1 {
                        spec_section_banner(i) + t
                    } else {
                        t
                    };
                    seq![part] + rest
                } else {
                    rest
                }
            },
            None => rest,
        }
    }
}

/// The document text assembled from its sections: fixed notices where no
/// section exists or none yields text, else the section texts joined by
/// blank lines.
pub open spec fn spec_document_text(
    secs: Seq<Option<Seq<u8>>>,
    shapes: Map<u32, CharShape>,
) -> Seq<char> {
    if secs.len() == 0 {
        "No BodyText sections found."@
    } else {
        let parts = spec_section_parts(secs, 0, shapes);
        if parts.len() == 0 {
            "No text extracted. File may be encrypted or have unsupported format."@
        } else {
            spec_join(parts, seq!['\n', '\n'])
        }
    }
}

/// Reconstructs the document text from its section payloads, already read
/// and decompressed; a `None` stands for a section that could not be read
/// and is skipped. Sections carry a banner when there are several, and fixed
/// notices report a document with no sections or no extractable text.
pub fn extract_text_from_sections(
    sections: &Vec<Option<Vec<u8>>>,
    char_shapes: &HashMap<u32, CharShape>,
) -> (r: String)
    requires
        forall|i: int|
            0 <= i < sections@.len() ==> match #[trigger] sections@[i] {
                Some(v) => v@.len() <= 0xFFFF_FFFF,
                None => true,
            },
    ensures
        r@ == spec_document_text(
            sections@.map_values(
                |s: Option<Vec<u8>>|
                    match s {
                        Some(v) => Some(v@),
                        None => None,
                    },
            ),
            char_shapes@,
        ),
{
    let ghost secs = sections@.map_values(
        |s: Option<Vec<u8>>|
            match s {
                Some(v) => Some(v@),
                None => None,
            },
    );
    let total = sections.len();
    if total == 0 {
        return String::from_str("No BodyText sections found.");
    }
    let mut parts: Vec<String> = Vec::new();
    let mut i: usize = 0;
    proof {
        assert(parts@.map_values(|s: String| s@) + spec_section_parts(secs, 0, char_shapes@)
            =~= spec_section_parts(secs, 0, char_shapes@));
    }
    while i < total
        invariant
            secs == sections@.map_values(
                |s: Option<Vec<u8>>|
                    match s {
                        Some(v) => Some(v@),
                        None => None,
                    },
            ),
            total == secs.len(),
            i <= total,
            forall|k: int|
                0 <= k < sections@.len() ==> match #[trigger] sections@[k] {
                    Some(v) => v@.len() <= 0xFFFF_FFFF,
                    None => true,
                },
            spec_section_parts(secs, 0, char_shapes@) == parts@.map_values(|s: String| s@)
                + spec_section_parts(secs, i as int, char_shapes@),
        decreases total - i,
    {
        let ghost pre = parts@.map_values(|s: String| s@);
        proof {
            assert(secs[i as int] == match sections@[i as int] {
                Some(v) => Some(v@),
                None => None,
            });
        }
        match &sections[i] {
            Some(data) => {
                let text = parse_section_records_formatted(data.as_slice(), char_shapes);
                if text.as_str().unicode_len() > 0 {
                    if total > 1 {
                        let mut banner = String::from_str("=== Section ");
                        push_dec(&mut banner, i as u64);
                        banner.append(" ===\n");
                        banner.append(text.as_str());
                        parts.push(banner);
                        proof {
                            reveal_strlit("=== Section ");
                            reveal_strlit(" ===\n");
                            assert("=== Section "@ =~= seq![
                                '=', '=', '=', ' ', 'S', 'e', 'c', 't', 'i', 'o', 'n', ' ',
                            ]);
                            assert(" ===\n"@ =~= seq![' ', '=', '=', '=', '\n']);
                            assert(parts@.map_values(|s: String| s@) =~= pre.push(
                                spec_section_banner(i as int) + spec_section_text(
                                    spec_parse_all(data@, 0),
                                    char_shapes@,
                                ),
                            ));
                        }
                    } else {
                        parts.push(text);
                        proof {
                            assert(parts@.map_values(|s: String| s@) =~= pre.push(
                                spec_section_text(spec_parse_all(data@, 0), char_shapes@),
                            ));
                        }
                    }
                }
            },
            None => {},
        }
        i += 1;
    }
    proof {
        assert(spec_section_parts(secs, i as int, char_shapes@) =~= Seq::<Seq<char>>::empty());
        assert(parts@.map_values(|s: String| s@) + Seq::<Seq<char>>::empty() =~= parts@.map_values(
            |s: String| s@,
        ));
    }
    if parts.len() == 0 {
        return String::from_str(
            "No text extracted. File may be encrypted or have unsupported format.",
        );
    }
    let joined = crate::strings::join_strings(&parts, "\n\n");
    proof {
        reveal_strlit("\n\n");
        assert("\n\n"@ =~= seq!['\n', '\n']);
    }
    joined
}

/// A fully parsed document, ready for the markdown exporter.
#[derive(Debug)]
pub struct MdmDocument {
    pub content: String,
    pub images: Vec<ImageData>,
    pub tables: Vec<crate::table::TableData>,
    pub metadata: Metadata,
}

/// The MDX rendering of a document: a front-matter block with the version
/// and the section, image and table counts, then the content.
pub open spec fn spec_mdx(
    version: Seq<char>,
    sections: int,
    images: int,
    tables: int,
    content: Seq<char>,
) -> Seq<char> {
    "---\n"@ + "version: \""@ + version + "\"\n"@ + "sections: "@ + spec_dec(sections) + seq!['\n']
        + "images: "@ + spec_dec(images) + seq!['\n'] + "tables: "@ + spec_dec(tables) + seq!['\n']
        + "---\n\n"@ + content
}

impl MdmDocument {
    /// Renders the document as MDX: front matter, then the content.
    pub fn to_mdx(&self) -> (r: String)
        ensures
            r@ == spec_mdx(
                self.metadata.version@,
                self.metadata.section_count as int,
                self.images@.len() as int,
                self.tables@.len() as int,
                self.content@,
            ),
    {
        let mut mdx = String::from_str("---\n");
        mdx.append("version: \"");
        mdx.append(self.metadata.version.as_str());
        mdx.append("\"\n");
        mdx.append("sections: ");
        push_dec(&mut mdx, self.metadata.section_count as u64);
        mdx.push('\n');
        mdx.append("images: ");
        push_dec(&mut mdx, self.images.len() as u64);
        mdx.push('\n');
        mdx.append("tables: ");
        push_dec(&mut mdx, self.tables.len() as u64);
        mdx.push('\n');
        mdx.append("---\n\n");
        mdx.append(self.content.as_str());
        mdx
    }
}

} // verus!

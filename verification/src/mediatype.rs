//! DirectShow media types: the input formats the filter accepts and the
//! compressed output type it offers.
use vstd::prelude::*;

use crate::config::Config;
use crate::state::FormatInfo;
use crate::text::owned;

verus! {

/// The FOURCC code of four bytes, first byte lowest.
pub open spec fn fourcc_code(a: u8, b: u8, c: u8, d: u8) -> u32 {
    (a as int + b as int * 0x100 + c as int * 0x10000 + d as int * 0x1000000) as u32
}

/// Packs four bytes into a little-endian FOURCC code.
pub fn mmio_fourcc(a: u8, b: u8, c: u8, d: u8) -> (r: u32)
    ensures
        r == fourcc_code(a, b, c, d),
        r as int == a as int + b as int * 0x100 + c as int * 0x10000 + d as int * 0x1000000,
{
    a as u32 + (b as u32) * 0x100 + (c as u32) * 0x10000 + (d as u32) * 0x1000000
}


// GUIDs as 128-bit numbers (`GUID::to_u128`).
pub const MEDIATYPE_VIDEO: u128 = 0x73646976_0000_0010_8000_00aa00389b71;
pub const MEDIASUBTYPE_RGB24: u128 = 0xe436eb7d_524f_11ce_9f53_0020af0ba770;
pub const MEDIASUBTYPE_RGB32: u128 = 0xe436eb7e_524f_11ce_9f53_0020af0ba770;
pub const MEDIASUBTYPE_ARGB32: u128 = 0x773c9ac0_3274_11d0_b724_00aa006c1a01;
pub const MEDIASUBTYPE_RGB565: u128 = 0xe436eb7b_524f_11ce_9f53_0020af0ba770;
pub const MEDIASUBTYPE_RGB555: u128 = 0xe436eb7c_524f_11ce_9f53_0020af0ba770;
pub const MEDIASUBTYPE_RGB8: u128 = 0xe436eb7a_524f_11ce_9f53_0020af0ba770;
/// MMDxShow's 32-bit RGB output subtype (the classic "DIB Sequential" filter
/// MMD ships, which pushes MMD's render surface as a 32bpp DIB).
pub const MEDIASUBTYPE_MMDXSHOW_RGB32: u128 = 0x773C9AC0_3274_11D0_B724_00AA006C1A01;
pub const FORMAT_VIDEOINFO: u128 = 0x05589f80_c356_11ce_bf01_00aa0055595a;
pub const FORMAT_VIDEOINFO2: u128 = 0xf72a76a0_eb0a_11d0_ace4_0000c0cc16ba;

/// The fields of a VIDEOINFOHEADER / VIDEOINFOHEADER2 the filter reads.
#[derive(Clone, Copy, Debug)]
pub struct VideoHeader {
    pub width: i32,
    pub height: i32,
    pub avg_time_per_frame: i64,
}

/// A DirectShow media type: its GUIDs, and the video header of its format
/// block when it has one.
#[derive(Clone, Copy, Debug)]
pub struct MediaTypeDesc {
    pub majortype: u128,
    pub subtype: u128,
    pub formattype: u128,
    pub header: Option<VideoHeader>,
}

pub open spec fn rgb_subtype(sub: u128) -> bool {
    ||| sub == MEDIASUBTYPE_RGB24
    ||| sub == MEDIASUBTYPE_RGB32
    ||| sub == MEDIASUBTYPE_ARGB32
    ||| sub == MEDIASUBTYPE_RGB565
    ||| sub == MEDIASUBTYPE_RGB555
    ||| sub == MEDIASUBTYPE_RGB8
    ||| sub == MEDIASUBTYPE_MMDXSHOW_RGB32
}

/// Uncompressed RGB video with a VIDEOINFOHEADER or VIDEOINFOHEADER2 format.
pub open spec fn input_accepted(mt: MediaTypeDesc) -> bool {
    mt.majortype == MEDIATYPE_VIDEO && rgb_subtype(mt.subtype) && (mt.formattype == FORMAT_VIDEOINFO
        || mt.formattype == FORMAT_VIDEOINFO2)
}

/// Whether the input pin takes this media type.
pub fn check_input(mt: &MediaTypeDesc) -> (r: bool)
    ensures
        r == input_accepted(*mt),
{
    if mt.majortype != MEDIATYPE_VIDEO {
        return false;
    }
    let sub = mt.subtype;
    if !(sub == MEDIASUBTYPE_RGB24 || sub == MEDIASUBTYPE_RGB32 || sub == MEDIASUBTYPE_ARGB32 || sub
        == MEDIASUBTYPE_RGB565 || sub == MEDIASUBTYPE_RGB555 || sub == MEDIASUBTYPE_RGB8 || sub
        == MEDIASUBTYPE_MMDXSHOW_RGB32) {
        return false;
    }
    mt.formattype == FORMAT_VIDEOINFO || mt.formattype == FORMAT_VIDEOINFO2
}

/// The ffmpeg pixel format and bits per pixel of an RGB subtype. DirectShow
/// RGB24 samples are stored in DIB order: B,G,R.
pub open spec fn pixel_format(sub: u128) -> (Seq<char>, u32) {
    if sub == MEDIASUBTYPE_RGB24 {
        ("bgr24"@, 24)
    } else if sub == MEDIASUBTYPE_RGB32 || sub == MEDIASUBTYPE_ARGB32 {
        ("bgra"@, 32)
    } else if sub == MEDIASUBTYPE_MMDXSHOW_RGB32 {
        ("bgra"@, 32)
    } else if sub == MEDIASUBTYPE_RGB565 {
        ("rgb565le"@, 16)
    } else if sub == MEDIASUBTYPE_RGB555 {
        ("rgb555le"@, 16)
    } else {
        ("gray"@, 8)
    }
}

/// The input format of an accepted media type: the header's width, the
/// height without its sign (positive means bottom-up rows), the frame
/// duration (1 when the header gives none) and the pixel format.
pub open spec fn input_format(mt: MediaTypeDesc) -> Option<(i32, int, bool, i64, Seq<char>, u32)> {
    if !input_accepted(mt) {
        None
    } else {
        match mt.header {
            None => None,
            Some(h) => {
                let (pix, bpp) = pixel_format(mt.subtype);
                Some((
                    h.width,
                    if h.height < 0 { -h.height } else { h.height as int },
                    h.height > 0,
                    if h.avg_time_per_frame > 0 { h.avg_time_per_frame } else { 1 },
                    pix,
                    bpp,
                ))
            },
        }
    }
}

/// The format of an accepted input media type; `None` for a type the input
/// pin does not take or whose format block is missing.
pub fn parse_input(mt: &MediaTypeDesc) -> (r: Option<FormatInfo>)
    requires
        mt.header matches Some(h) ==> h.height != i32::MIN,
    ensures
        match r {
            None => input_format(*mt) is None,
            Some(f) => input_format(*mt) == Some(
                (f.width, f.height as int, f.bottom_up, f.frame_dur, f.pix_fmt@, f.bpp),
            ),
        },
{
    if !check_input(mt) {
        return None;
    }
    let h = match mt.header {
        Some(h) => h,
        None => {
            return None;
        },
    };
    let height = if h.height < 0 { -h.height } else { h.height };
    let frame_dur = if h.avg_time_per_frame > 0 { h.avg_time_per_frame } else { 1 };
    let sub = mt.subtype;
    let (pix_fmt, bpp) = if sub == MEDIASUBTYPE_RGB24 {
        (owned("bgr24"), 24)
    } else if sub == MEDIASUBTYPE_RGB32 || sub == MEDIASUBTYPE_ARGB32 {
        (owned("bgra"), 32)
    } else if sub == MEDIASUBTYPE_MMDXSHOW_RGB32 {
        (owned("bgra"), 32)
    } else if sub == MEDIASUBTYPE_RGB565 {
        (owned("rgb565le"), 16)
    } else if sub == MEDIASUBTYPE_RGB555 {
        (owned("rgb555le"), 16)
    } else {
        (owned("gray"), 8)
    };
    Some(FormatInfo { width: h.width, height, bpp, bottom_up: h.height > 0, pix_fmt, frame_dur })
}

/// The media subtype GUID of a FOURCC: `XXXXXXXX-0000-0010-8000-00AA00389B71`.
pub open spec fn fourcc_guid_spec(fourcc: u32) -> u128 {
    (fourcc as int * 0x1_0000_0000_0000_0000_0000_0000 + 0x0000_0010_8000_00AA_0038_9B71) as u128
}

pub fn fourcc_guid(fourcc: u32) -> (r: u128)
    ensures
        r == fourcc_guid_spec(fourcc),
{
    (fourcc as u128) * 0x1_0000_0000_0000_0000_0000_0000 + 0x0000_0010_8000_00AA_0038_9B71
}

/// Video of the given FOURCC.
pub open spec fn output_accepted(majortype: u128, subtype: u128, fourcc: u32) -> bool {
    majortype == MEDIATYPE_VIDEO && subtype == fourcc_guid_spec(fourcc)
}

/// Whether the output pin takes a media type: video of the FOURCC it offers.
pub fn accepts_output(mt: &MediaTypeDesc, fourcc: u32) -> (r: bool)
    ensures
        r == output_accepted(mt.majortype, mt.subtype, fourcc),
{
    let expected = fourcc_guid(fourcc);
    mt.majortype == MEDIATYPE_VIDEO && mt.subtype == expected
}

/// The compressed output media type, as plain values: the FOURCC, the
/// source and target rectangles' right and bottom edges, the bit rate, the
/// frame duration, the bitmap header's size, the image size, the sample
/// size and the bytes appended after the VIDEOINFOHEADER.
#[derive(Clone, Copy, Debug)]
pub struct OutputTypeDesc {
    pub fourcc: u32,
    pub subtype: u128,
    pub rect_right: i32,
    pub rect_bottom: i32,
    pub bit_rate: u32,
    pub avg_time_per_frame: i64,
    pub width: i32,
    pub height: i32,
    pub bit_count: u16,
    pub size_image: u32,
    pub sample_size: u32,
    pub extra_format_bytes: u32,
}

pub open spec fn non_negative(v: i32) -> u32 {
    if v > 0 { v as u32 } else { 0 }
}

/// The FOURCC to offer: the configured `out_fourcc` when it is exactly four
/// bytes long, else the codec's.
pub open spec fn output_fourcc(out_fourcc: Seq<char>, fourcc: u32) -> u32 {
    let b = vstd::utf8::encode_utf8(out_fourcc);
    if b.len() == 4 { fourcc_code(b[0], b[1], b[2], b[3]) } else { fourcc }
}

pub open spec fn output_type_spec(
    width: i32,
    height: i32,
    frame_dur: i64,
    fourcc: u32,
    cfg: crate::config::ConfigView,
) -> OutputTypeDesc {
    let f = output_fourcc(cfg.out_fourcc, fourcc);
    OutputTypeDesc {
        fourcc: f,
        subtype: fourcc_guid_spec(f),
        rect_right: if cfg.out_rcsource_zero { 0 } else { width },
        rect_bottom: if cfg.out_rcsource_zero { 0 } else { height },
        bit_rate: non_negative(cfg.out_bitrate),
        avg_time_per_frame: frame_dur,
        width,
        // AVI Mux rejects compressed video types with a negative (top-down)
        // biHeight; use bottom-up (positive) like VCM encoders do.
        height,
        bit_count: 24,
        size_image: non_negative(cfg.out_bisizeimage),
        sample_size: non_negative(cfg.out_lsample),
        extra_format_bytes: non_negative(cfg.out_cbextra),
    }
}

/// The compressed output media type for the input format and the codec's
/// FOURCC, tuned by the `out_*` settings (mainly for AVI Mux compatibility).
pub fn make_output_type(fmt: &FormatInfo, fourcc: u32, cfg: &Config) -> (r: OutputTypeDesc)
    ensures
        r == output_type_spec(fmt.width, fmt.height, fmt.frame_dur, fourcc, cfg@),
{
    let b = cfg.out_fourcc.as_str().as_bytes();
    let fourcc = if b.len() == 4 {
        mmio_fourcc(b[0], b[1], b[2], b[3])
    } else {
        fourcc
    };
    let zero = cfg.out_rcsource_zero;
    OutputTypeDesc {
        fourcc,
        subtype: fourcc_guid(fourcc),
        rect_right: if zero { 0 } else { fmt.width },
        rect_bottom: if zero { 0 } else { fmt.height },
        bit_rate: if cfg.out_bitrate > 0 { cfg.out_bitrate as u32 } else { 0 },
        avg_time_per_frame: fmt.frame_dur,
        width: fmt.width,
        height: fmt.height,
        bit_count: 24,
        size_image: if cfg.out_bisizeimage > 0 { cfg.out_bisizeimage as u32 } else { 0 },
        sample_size: if cfg.out_lsample > 0 { cfg.out_lsample as u32 } else { 0 },
        extra_format_bytes: if cfg.out_cbextra > 0 { cfg.out_cbextra as u32 } else { 0 },
    }
}

/// The output pin accepts the video type it offers for the codec's
/// FOURCC, unless `out_fourcc` (four bytes) replaces that FOURCC in the
/// offered type.
pub proof fn law_offered_output_type_accepted(
    width: i32,
    height: i32,
    frame_dur: i64,
    fourcc: u32,
    cfg: crate::config::ConfigView,
)
    requires
        vstd::utf8::encode_utf8(cfg.out_fourcc).len() != 4,
    ensures
        output_accepted(MEDIATYPE_VIDEO, output_type_spec(width, height, frame_dur, fourcc, cfg).subtype, fourcc),
        output_type_spec(width, height, frame_dur, fourcc, cfg).fourcc == fourcc,
{
}

/// Every accepted input is read in DirectShow's DIB byte order, blue
/// first: a 32-bit format is `bgra` (B,G,R,A) and a 24-bit one `bgr24`
/// (B,G,R); the 32-bit RGB subtypes (RGB32, ARGB32) give the 32-bit format
/// and RGB24 the 24-bit one.
pub proof fn law_rgb_inputs_in_dib_order(mt: MediaTypeDesc)
    requires
        input_format(mt) is Some,
    ensures
        ({
            let (_, _, _, _, pix, bpp) = input_format(mt)->0;
            &&& bpp == 32 ==> pix == "bgra"@
            &&& bpp == 24 ==> pix == "bgr24"@
            &&& (mt.subtype == MEDIASUBTYPE_RGB32 || mt.subtype == MEDIASUBTYPE_ARGB32) ==> bpp == 32
            &&& mt.subtype == MEDIASUBTYPE_RGB24 ==> bpp == 24
        }),
{
}

} // verus!


//! The ffmpeg command line: codec choice, rate control, transparent output
//! and the elementary stream handed back to DirectShow.
use vstd::prelude::*;

use crate::annexb::CodecKind;
use crate::config::{text_has, text_is, Config, ConfigView};
use crate::mediatype::{fourcc_code, mmio_fourcc};
use crate::state::FormatInfo;
use crate::text::{
    append_text, chars_of, contains, dec_int, decimal, eq_ignore_case, has, lower_seq, lowercase, owned,
    begins, push_char, same, same_ignore_case, split_words, starts_with, string_of, trim, trimmed, views,
    words,
};

verus! {

/// Transparent output modes.
#[derive(Clone, Copy, PartialEq, Eq, Structural, Debug)]
pub enum AlphaMode {
    WebmVp9,
    WebmAv1,
    MovProres,
    MkvFfv1,
}

/// The transparent mode an ini value names, case-insensitively.
pub open spec fn alpha_mode_spec(alpha_format: Seq<char>) -> Option<AlphaMode> {
    let l = lower_seq(alpha_format);
    if l == "webm_vp9"@ || l == "vp9"@ {
        Some(AlphaMode::WebmVp9)
    } else if l == "webm_av1"@ || l == "av1"@ {
        Some(AlphaMode::WebmAv1)
    } else if l == "mov_prores"@ || l == "prores"@ {
        Some(AlphaMode::MovProres)
    } else if l == "mkv_ffv1"@ || l == "ffv1"@ {
        Some(AlphaMode::MkvFfv1)
    } else {
        None
    }
}

pub fn alpha_mode_of(alpha_format: &str) -> (r: Option<AlphaMode>)
    ensures
        r == alpha_mode_spec(alpha_format@),
{
    let v = chars_of(alpha_format);
    let l = lowercase(v.as_slice());
    let l = l.as_slice();
    if same(l, "webm_vp9") || same(l, "vp9") {
        Some(AlphaMode::WebmVp9)
    } else if same(l, "webm_av1") || same(l, "av1") {
        Some(AlphaMode::WebmAv1)
    } else if same(l, "mov_prores") || same(l, "prores") {
        Some(AlphaMode::MovProres)
    } else if same(l, "mkv_ffv1") || same(l, "ffv1") {
        Some(AlphaMode::MkvFfv1)
    } else {
        None
    }
}

pub fn alpha_mode(cfg: &Config) -> (r: Option<AlphaMode>)
    ensures
        r == alpha_mode_spec(cfg.alpha_format@),
{
    alpha_mode_of(cfg.alpha_format.as_str())
}

/// The FOURCC and elementary-stream format the AVI side carries.
pub open spec fn mux_for(codec: Seq<char>, alpha_format: Seq<char>) -> (u32, Seq<char>) {
    let h264 = (fourcc_code(0x48, 0x32, 0x36, 0x34), "h264"@);
    if alpha_mode_spec(alpha_format) is Some {
        h264
    } else if contains(codec, "264"@) || contains(codec, "h264"@) || contains(codec, "avc"@) {
        h264
    } else if contains(codec, "265"@) || contains(codec, "hevc"@) || contains(codec, "h265"@) {
        (fourcc_code(0x48, 0x45, 0x56, 0x43), "hevc"@)
    } else if contains(codec, "av1"@) {
        (fourcc_code(0x61, 0x76, 0x30, 0x31), "av1"@)
    } else if contains(codec, "ffv1"@) {
        (fourcc_code(0x46, 0x46, 0x56, 0x31), "ffv1"@)
    } else if contains(codec, "utvideo"@) {
        (fourcc_code(0x55, 0x4C, 0x52, 0x47), "utvideo"@)
    } else {
        h264
    }
}

pub fn pick_fourcc_mux(codec: &str, alpha_format: &str) -> (r: (u32, &'static str))
    ensures
        (r.0, r.1@) == mux_for(codec@, alpha_format@),
{
    // Transparent output always uses an H.264 elementary stream on the
    // DirectShow/AVI side (the temporary AVI is deleted after rendering);
    // the real transparent file is written in parallel by the same ffmpeg.
    if alpha_mode_of(alpha_format).is_some() {
        return (mmio_fourcc(0x48, 0x32, 0x36, 0x34), "h264");  // 'H','2','6','4'
    }
    let cv = chars_of(codec);
    let c = cv.as_slice();
    if has(c, "264") || has(c, "h264") || has(c, "avc") {
        (mmio_fourcc(0x48, 0x32, 0x36, 0x34), "h264")
    } else if has(c, "265") || has(c, "hevc") || has(c, "h265") {
        (mmio_fourcc(0x48, 0x45, 0x56, 0x43), "hevc")  // 'H','E','V','C'
    } else if has(c, "av1") {
        (mmio_fourcc(0x61, 0x76, 0x30, 0x31), "av1")  // 'a','v','0','1'
    } else if has(c, "ffv1") {
        (mmio_fourcc(0x46, 0x46, 0x56, 0x31), "ffv1")  // 'F','F','V','1'
    } else if has(c, "utvideo") {
        (mmio_fourcc(0x55, 0x4C, 0x52, 0x47), "utvideo")  // 'U','L','R','G'
    } else {
        (mmio_fourcc(0x48, 0x32, 0x36, 0x34), "h264")
    }
}

/// The CPU encoder of the same codec family.
pub open spec fn cpu_codec_for(codec: Seq<char>) -> Seq<char> {
    if contains(codec, "265"@) || contains(codec, "hevc"@) {
        "libx265"@
    } else if contains(codec, "av1"@) {
        "libaom-av1"@
    } else {
        "libx264"@
    }
}

/// CPU fallback config for when a GPU encoder is unavailable: the CPU
/// encoder of the same family with the `veryfast` preset; every other
/// setting is kept.
pub fn cpu_fallback(cfg: &Config) -> (r: Config)
    ensures
        r@ == (ConfigView { codec: cpu_codec_for(cfg.codec@), preset: "veryfast"@, ..cfg@ }),
{
    let mut c = cfg.duplicate();
    c.codec = if text_has(&cfg.codec, "265") || text_has(&cfg.codec, "hevc") {
        owned("libx265")
    } else if text_has(&cfg.codec, "av1") {
        owned("libaom-av1")
    } else {
        owned("libx264")
    };
    c.preset = owned("veryfast");
    c
}

/// ffmpeg container format name for an ini container value.
pub open spec fn container_format_spec(container: Seq<char>) -> Seq<char> {
    let l = lower_seq(container);
    if l == "mp4"@ || l == "m4v"@ {
        "mp4"@
    } else if l == "mkv"@ || l == "matroska"@ {
        "matroska"@
    } else if l == "mov"@ {
        "mov"@
    } else if l == "webm"@ {
        "webm"@
    } else if l == "ts"@ || l == "mpegts"@ {
        "mpegts"@
    } else {
        "mp4"@
    }
}

pub fn container_format(cfg_container: &str) -> (r: &'static str)
    ensures
        r@ == container_format_spec(cfg_container@),
{
    let v = chars_of(cfg_container);
    let l = lowercase(v.as_slice());
    let l = l.as_slice();
    if same(l, "mp4") || same(l, "m4v") {
        "mp4"
    } else if same(l, "mkv") || same(l, "matroska") {
        "matroska"
    } else if same(l, "mov") {
        "mov"
    } else if same(l, "webm") {
        "webm"
    } else if same(l, "ts") || same(l, "mpegts") {
        "mpegts"
    } else {
        "mp4"
    }
}

/// How one character of a path is written in a tee muxer URL: `\` becomes
/// `/`, and `[`, `]`, `|`, `:` are escaped with a backslash.
pub open spec fn tee_char(c: char) -> Seq<char> {
    if c == '\\' {
        seq!['/']
    } else if c == '[' || c == ']' || c == '|' || c == ':' {
        seq!['\\', c]
    } else {
        seq![c]
    }
}

pub open spec fn tee_escape_spec(s: Seq<char>) -> Seq<char>
    decreases s.len(),
{
    if s.len() == 0 {
        seq![]
    } else {
        tee_escape_spec(s.drop_last()) + tee_char(s.last())
    }
}

/// Escape a path for ffmpeg's tee muxer URL syntax.
pub fn tee_escape(path: &str) -> (r: String)
    ensures
        r@ == tee_escape_spec(path@),
{
    let v = chars_of(path);
    let mut out = String::new();
    let mut i: usize = 0;
    while i < v.len()
        invariant
            i <= v.len(),
            v@ == path@,
            out@ == tee_escape_spec(v@.take(i as int)),
        decreases v.len() - i,
    {
        let c = v[i];
        assert(v@.take(i + 1).drop_last() =~= v@.take(i as int));
        if c == '\\' {
            push_char(&mut out, '/');
        } else if c == '[' || c == ']' || c == '|' || c == ':' {
            push_char(&mut out, '\\');
            push_char(&mut out, c);
        } else {
            push_char(&mut out, c);
        }
        i = i + 1;
        assert(out@ =~= tee_escape_spec(v@.take(i as int)));
    }
    assert(v@.take(i as int) =~= path@);
    out
}

// ---------------------------------------------------------------------------
// Argument lists
// ---------------------------------------------------------------------------

/// Appends one argument.
pub fn push_arg(a: &mut Vec<String>, s: &str)
    ensures
        views(final(a)@) == views(old(a)@).push(s@),
{
    a.push(owned(s));
    assert(views(a@) =~= views(old(a)@).push(s@));
}

/// Appends one argument already owned.
pub fn push_string(a: &mut Vec<String>, s: String)
    ensures
        views(final(a)@) == views(old(a)@).push(s@),
{
    let ghost sv = s@;
    a.push(s);
    assert(views(a@) =~= views(old(a)@).push(sv));
}

/// Appends every white-space separated word of `extra`.
pub fn push_words(a: &mut Vec<String>, extra: &String)
    ensures
        views(final(a)@) == views(old(a)@) + words(extra@),
{
    let v = chars_of(extra.as_str());
    let ws = split_words(v.as_slice());
    let ghost wv = ws@.map_values(|w: Vec<char>| w@);
    let mut i: usize = 0;
    while i < ws.len()
        invariant
            i <= ws.len(),
            wv == ws@.map_values(|w: Vec<char>| w@),
            wv == words(extra@),
            views(a@) == views(old(a)@) + wv.take(i as int),
        decreases ws.len() - i,
    {
        let s = string_of(ws[i].as_slice());
        push_string(a, s);
        i = i + 1;
        assert(wv.take(i as int) =~= wv.take(i - 1).push(wv[i - 1]));
        assert(views(a@) =~= views(old(a)@) + wv.take(i as int));
    }
    assert(wv.take(i as int) =~= wv);
}


/// `bitrate.saturating_mul(2).max(bitrate)`: the VBV buffer for constant
/// bitrate.
pub open spec fn bufsize_for(bitrate: i32) -> int {
    if bitrate > 0 {
        if 2 * bitrate > i32::MAX { i32::MAX as int } else { 2 * bitrate }
    } else {
        bitrate as int
    }
}

/// The encoder flavours a codec name selects.
pub open spec fn is_nvenc(c: ConfigView) -> bool { contains(c.codec, "nvenc"@) }
pub open spec fn is_qsv(c: ConfigView) -> bool { contains(c.codec, "qsv"@) }
pub open spec fn is_amf(c: ConfigView) -> bool { contains(c.codec, "amf"@) }
pub open spec fn is_gpu(c: ConfigView) -> bool { is_nvenc(c) || is_qsv(c) || is_amf(c) }
pub open spec fn is_lossless(c: ConfigView) -> bool {
    contains(c.codec, "ffv1"@) || contains(c.codec, "utvideo"@) || contains(c.codec, "huffyuv"@)
        || contains(c.codec, "ffvhuff"@)
}
/// Constant bitrate: `rate_mode` is `cbr` in any case and a bitrate is set.
pub open spec fn is_cbr(c: ConfigView) -> bool {
    eq_ignore_case(c.rate_mode, "cbr"@) && c.bitrate > 0
}

/// Filters: vertical flip for bottom-up frames, upload to the QSV device.
pub open spec fn filter_args(c: ConfigView, bottom_up: bool) -> Seq<Seq<char>> {
    if bottom_up {
        seq!["-vf"@, if is_qsv(c) { "vflip,format=nv12,hwupload=extra_hw_frames=64"@ } else { "vflip"@ }]
    } else if is_qsv(c) {
        seq!["-vf"@, "format=nv12,hwupload=extra_hw_frames=64"@]
    } else {
        seq![]
    }
}

/// The preset, except NVENC's rejected `veryfast`; AMF calls it `-quality`.
pub open spec fn preset_args(c: ConfigView) -> Seq<Seq<char>> {
    if c.preset.len() > 0 && !(is_nvenc(c) && c.preset == "veryfast"@) {
        seq![if is_amf(c) { "-quality"@ } else { "-preset"@ }, c.preset]
    } else {
        seq![]
    }
}

/// Minimum, maximum and buffer size of constant bitrate.
pub open spec fn cbr_bounds(c: ConfigView) -> Seq<Seq<char>> {
    seq!["-minrate"@, dec_int(c.bitrate as int), "-maxrate"@, dec_int(c.bitrate as int), "-bufsize"@, dec_int(bufsize_for(c.bitrate))]
}

/// The x265 rate parameters in kbit/s.
pub open spec fn x265_params(c: ConfigView) -> Seq<char> {
    let kbps = dec_int(c.bitrate / 1000);
    "bitrate="@ + kbps + ":vbv-maxrate="@ + kbps + ":vbv-bufsize="@ + dec_int(bufsize_for(c.bitrate) / 1000)
}

/// Rate control: bitrate (constant or variable) or constant quality.
pub open spec fn rate_args(c: ConfigView) -> Seq<Seq<char>> {
    let br = dec_int(c.bitrate as int);
    if is_gpu(c) {
        if c.bitrate > 0 {
            (if is_cbr(c) && (is_nvenc(c) || is_amf(c)) { seq!["-rc"@, "cbr"@] } else { seq![] })
            + seq!["-b:v"@, br]
            + (if is_cbr(c) {
                cbr_bounds(c) + (if is_nvenc(c) {
                    seq!["-cbr"@, "1"@, "-strict_gop"@, "1"@]
                } else if is_amf(c) {
                    seq!["-enforce_hrd"@, "1"@, "-filler_data"@, "1"@]
                } else {
                    seq!["-low_delay_brc"@, "1"@]
                })
            } else {
                seq![]
            })
        } else if is_nvenc(c) {
            seq!["-qp"@, "23"@]
        } else if is_qsv(c) {
            seq!["-global_quality"@, "23"@]
        } else {
            seq!["-qp_i"@, "23"@, "-qp_p"@, "23"@]
        }
    } else if c.bitrate > 0 {
        seq!["-b:v"@, br] + (if is_cbr(c) {
            cbr_bounds(c) + (if contains(c.codec, "264"@) {
                seq!["-x264-params"@, "nal-hrd=cbr:filler=1"@]
            } else if contains(c.codec, "265"@) {
                seq!["-x265-params"@, x265_params(c)]
            } else {
                seq![]
            })
        } else {
            seq![]
        })
    } else if c.crf > 0 {
        seq!["-crf"@, dec_int(c.crf as int)]
    } else {
        seq![]
    }
}

/// Output pixel format and B-frames for the lossy software and GPU encoders.
pub open spec fn tail_args(c: ConfigView) -> Seq<Seq<char>> {
    (if !is_lossless(c) && !is_qsv(c) { seq!["-pix_fmt"@, "yuv420p"@] } else { seq![] })
    + (if !is_lossless(c) && !is_nvenc(c) && (contains(c.codec, "264"@) || contains(c.codec, "265"@)) {
        seq!["-bf"@, "0"@]
    } else {
        seq![]
    })
}

/// The encoder-side options: filters, codec, preset, rate control, pixel
/// format and the user's extra arguments.
pub open spec fn codec_args(c: ConfigView, bottom_up: bool) -> Seq<Seq<char>> {
    filter_args(c, bottom_up) + seq!["-c:v"@, c.codec] + preset_args(c) + rate_args(c) + tail_args(c)
        + words(c.extra)
}


fn push_filter_args(cfg: &Config, bottom_up: bool, qsv: bool, a: &mut Vec<String>)
    requires
        qsv == is_qsv(cfg@),
    ensures
        views(final(a)@) == views(old(a)@) + filter_args(cfg@, bottom_up),
{
    if bottom_up {
        push_arg(a, "-vf");
        if qsv {
            push_arg(a, "vflip,format=nv12,hwupload=extra_hw_frames=64");
        } else {
            push_arg(a, "vflip");
        }
    } else if qsv {
        push_arg(a, "-vf");
        push_arg(a, "format=nv12,hwupload=extra_hw_frames=64");
    }
    assert(views(a@) =~= views(old(a)@) + filter_args(cfg@, bottom_up));
}

fn push_preset_args(cfg: &Config, nvenc: bool, amf: bool, a: &mut Vec<String>)
    requires
        nvenc == is_nvenc(cfg@),
        amf == is_amf(cfg@),
    ensures
        views(final(a)@) == views(old(a)@) + preset_args(cfg@),
{
    if !cfg.preset.as_str().is_empty() && !(nvenc && text_is(&cfg.preset, "veryfast")) {
        if amf {
            push_arg(a, "-quality");
        } else {
            push_arg(a, "-preset");
        }
        push_string(a, cfg.preset.clone());
    }
    assert(views(a@) =~= views(old(a)@) + preset_args(cfg@));
}

fn push_cbr_bounds(cfg: &Config, bufsize: i32, a: &mut Vec<String>)
    requires
        bufsize == bufsize_for(cfg.bitrate),
    ensures
        views(final(a)@) == views(old(a)@) + cbr_bounds(cfg@),
{
    push_arg(a, "-minrate");
    push_string(a, decimal(cfg.bitrate as i64));
    push_arg(a, "-maxrate");
    push_string(a, decimal(cfg.bitrate as i64));
    push_arg(a, "-bufsize");
    push_string(a, decimal(bufsize as i64));
    assert(views(a@) =~= views(old(a)@) + cbr_bounds(cfg@));
}

fn push_rate_args(cfg: &Config, nvenc: bool, qsv: bool, amf: bool, a: &mut Vec<String>)
    requires
        nvenc == is_nvenc(cfg@),
        qsv == is_qsv(cfg@),
        amf == is_amf(cfg@),
    ensures
        views(final(a)@) == views(old(a)@) + rate_args(cfg@),
{
    let ghost c = cfg@;
    let gpu = nvenc || qsv || amf;
    let have_bitrate = cfg.bitrate > 0;
    let rv = chars_of(cfg.rate_mode.as_str());
    let cbr = same_ignore_case(rv.as_slice(), "cbr") && have_bitrate;
    let bufsize: i32 = if cfg.bitrate > 0 {
        if cfg.bitrate > i32::MAX / 2 { i32::MAX } else { cfg.bitrate * 2 }
    } else {
        cfg.bitrate
    };
    if gpu {
        if have_bitrate {
            let ghost a0 = views(a@);
            if cbr {
                // NVENC and AMF expose an explicit CBR switch. QSV selects
                // bitrate control from b/min/max/bufsize.
                if nvenc || amf {
                    push_arg(a, "-rc");
                    push_arg(a, "cbr");
                }
            }
            let ghost a1 = views(a@);
            push_arg(a, "-b:v");
            push_string(a, decimal(cfg.bitrate as i64));
            let ghost a2 = views(a@);
            if cbr {
                push_cbr_bounds(cfg, bufsize, a);
                let ghost a3 = views(a@);
                if nvenc {
                    // Strict GOP + the explicit CBR flag make the hardware
                    // insert filler and hold the target bitrate.
                    push_arg(a, "-cbr");
                    push_arg(a, "1");
                    push_arg(a, "-strict_gop");
                    push_arg(a, "1");
                } else if amf {
                    // AMF exposes HRD and filler controls separately.
                    push_arg(a, "-enforce_hrd");
                    push_arg(a, "1");
                    push_arg(a, "-filler_data");
                    push_arg(a, "1");
                } else if qsv {
                    // QSV's low-delay BRC prevents the bitrate controller
                    // from undershooting.
                    push_arg(a, "-low_delay_brc");
                    push_arg(a, "1");
                }
                assert(views(a@) =~= a2 + (cbr_bounds(c) + (if nvenc {
                    seq!["-cbr"@, "1"@, "-strict_gop"@, "1"@]
                } else if amf {
                    seq!["-enforce_hrd"@, "1"@, "-filler_data"@, "1"@]
                } else {
                    seq!["-low_delay_brc"@, "1"@]
                })));
            }
            assert(views(a@) =~= views(old(a)@) + rate_args(c));
        } else if nvenc {
            push_arg(a, "-qp");
            push_arg(a, "23");
            assert(views(a@) =~= views(old(a)@) + rate_args(c));
        } else if qsv {
            push_arg(a, "-global_quality");
            push_arg(a, "23");
            assert(views(a@) =~= views(old(a)@) + rate_args(c));
        } else {
            push_arg(a, "-qp_i");
            push_arg(a, "23");
            push_arg(a, "-qp_p");
            push_arg(a, "23");
            assert(views(a@) =~= views(old(a)@) + rate_args(c));
        }
    } else if have_bitrate {
        push_arg(a, "-b:v");
        push_string(a, decimal(cfg.bitrate as i64));
        let ghost a2 = views(a@);
        if cbr {
            push_cbr_bounds(cfg, bufsize, a);
            let ghost a3 = views(a@);
            // libx264 exposes the generic nal-hrd switch; libx265 uses its
            // own x265-params syntax.
            if text_has(&cfg.codec, "264") {
                // x264 needs filler NAL units to keep a flat scene at the
                // requested rate.
                push_arg(a, "-x264-params");
                push_arg(a, "nal-hrd=cbr:filler=1");
            } else if text_has(&cfg.codec, "265") {
                let kbps = cfg.bitrate / 1000;
                let buf_kbps = bufsize / 1000;
                let mut p = owned("bitrate=");
                append_text(&mut p, decimal(kbps as i64).as_str());
                append_text(&mut p, ":vbv-maxrate=");
                append_text(&mut p, decimal(kbps as i64).as_str());
                append_text(&mut p, ":vbv-bufsize=");
                append_text(&mut p, decimal(buf_kbps as i64).as_str());
                push_arg(a, "-x265-params");
                push_string(a, p);
            }
            assert(views(a@) =~= a2 + (cbr_bounds(c) + (if contains(c.codec, "264"@) {
                seq!["-x264-params"@, "nal-hrd=cbr:filler=1"@]
            } else if contains(c.codec, "265"@) {
                seq!["-x265-params"@, x265_params(c)]
            } else {
                seq![]
            })));
        }
        assert(views(a@) =~= views(old(a)@) + rate_args(c));
    } else if cfg.crf > 0 {
        push_arg(a, "-crf");
        push_string(a, decimal(cfg.crf as i64));
        assert(views(a@) =~= views(old(a)@) + rate_args(c));
    } else {
        assert(views(a@) =~= views(old(a)@) + rate_args(c));
    }
}

fn push_tail_args(cfg: &Config, nvenc: bool, qsv: bool, lossless: bool, a: &mut Vec<String>)
    requires
        nvenc == is_nvenc(cfg@),
        qsv == is_qsv(cfg@),
        lossless == is_lossless(cfg@),
    ensures
        views(final(a)@) == views(old(a)@) + tail_args(cfg@),
{
    if !lossless && !qsv {
        // QSV's filter chain already outputs NV12; setting -pix_fmt here
        // would conflict with the hardware frames.
        push_arg(a, "-pix_fmt");
        push_arg(a, "yuv420p");
    }
    if !lossless && !nvenc && (text_has(&cfg.codec, "264") || text_has(&cfg.codec, "265")) {
        push_arg(a, "-bf");
        push_arg(a, "0");
    }
    assert(views(a@) =~= views(old(a)@) + tail_args(cfg@));
}

/// Build the encoder-side options (filters, codec, preset, quality). Shared
/// by the real pipeline and the startup probe so the probe sees exactly the
/// same arguments the encoder will get.
#[verifier::spinoff_prover]
pub fn build_codec_args(cfg: &Config, fmt: &FormatInfo, a: &mut Vec<String>)
    ensures
        views(final(a)@) == views(old(a)@) + codec_args(cfg@, fmt.bottom_up),
{
    let nvenc = text_has(&cfg.codec, "nvenc");
    let qsv = text_has(&cfg.codec, "qsv");
    let amf = text_has(&cfg.codec, "amf");
    let lossless = text_has(&cfg.codec, "ffv1") || text_has(&cfg.codec, "utvideo") || text_has(
        &cfg.codec,
        "huffyuv",
    ) || text_has(&cfg.codec, "ffvhuff");
    let ghost a0 = views(a@);
    push_filter_args(cfg, fmt.bottom_up, qsv, a);
    let ghost a1 = views(a@);
    push_arg(a, "-c:v");
    push_string(a, cfg.codec.clone());
    let ghost a2 = views(a@);
    push_preset_args(cfg, nvenc, amf, a);
    let ghost a3 = views(a@);
    push_rate_args(cfg, nvenc, qsv, amf, a);
    let ghost a4 = views(a@);
    push_tail_args(cfg, nvenc, qsv, lossless, a);
    let ghost a5 = views(a@);
    push_words(a, &cfg.extra);
    let ghost c = cfg@;
    assert(a2 == a1 + seq!["-c:v"@, c.codec]);
    assert(views(a@) == a0 + filter_args(c, fmt.bottom_up) + seq!["-c:v"@, c.codec] + preset_args(c)
        + rate_args(c) + tail_args(c) + words(c.extra));
    assert(views(a@) =~= views(old(a)@) + codec_args(cfg@, fmt.bottom_up));
}


/// Encoder and pixel format of a transparent mode.
pub open spec fn alpha_codec(mode: AlphaMode) -> (Seq<char>, Seq<char>) {
    match mode {
        AlphaMode::WebmVp9 => ("libvpx-vp9"@, "yuva420p"@),
        AlphaMode::WebmAv1 => ("libaom-av1"@, "yuva420p"@),
        AlphaMode::MovProres => ("prores_ks"@, "yuva444p10le"@),
        AlphaMode::MkvFfv1 => ("ffv1"@, "yuva444p"@),
    }
}

/// Bitrate when one is set, else constant quality with `default_crf` when
/// no positive crf is configured.
pub open spec fn alpha_quality(c: ConfigView, default_crf: int) -> Seq<Seq<char>> {
    if c.bitrate > 0 {
        seq!["-b:v"@, dec_int(c.bitrate as int)]
    } else {
        seq!["-crf"@, dec_int(if c.crf > 0 { c.crf as int } else { default_crf })]
    }
}

/// Encoder-side options for the transparent (alpha-capable) final file.
pub open spec fn alpha_args(mode: AlphaMode, c: ConfigView) -> Seq<Seq<char>> {
    let (codec, pix_fmt) = alpha_codec(mode);
    seq!["-c:v"@, codec, "-pix_fmt"@, pix_fmt] + match mode {
        AlphaMode::WebmVp9 => alpha_quality(c, 18) + seq![
            "-deadline"@,
            "good"@,
            "-cpu-used"@,
            "2"@,
            "-row-mt"@,
            "1"@,
        ],
        AlphaMode::WebmAv1 => alpha_quality(c, 30) + seq!["-cpu-used"@, "6"@, "-row-mt"@, "1"@],
        AlphaMode::MovProres => seq!["-profile:v"@, "4444"@, "-vendor"@, "apl0"@],
        AlphaMode::MkvFfv1 => seq!["-level"@, "3"@],
    } + words(c.extra)
}

fn push_alpha_quality(cfg: &Config, default_crf: i32, a: &mut Vec<String>)
    ensures
        views(final(a)@) == views(old(a)@) + alpha_quality(cfg@, default_crf as int),
{
    if cfg.bitrate > 0 {
        push_arg(a, "-b:v");
        push_string(a, decimal(cfg.bitrate as i64));
    } else {
        push_arg(a, "-crf");
        push_string(a, decimal(if cfg.crf > 0 { cfg.crf } else { default_crf } as i64));
    }
    assert(views(a@) =~= views(old(a)@) + alpha_quality(cfg@, default_crf as int));
}

/// Encoder-side options for the transparent (alpha-capable) final file.
/// These codecs are CPU-only in practice (libvpx/libaom/prores/ffv1), so no
/// hardware device setup is needed.
pub fn alpha_output_args(mode: AlphaMode, cfg: &Config, a: &mut Vec<String>)
    ensures
        views(final(a)@) == views(old(a)@) + alpha_args(mode, cfg@),
{
    let (codec, pix_fmt) = match mode {
        AlphaMode::WebmVp9 => ("libvpx-vp9", "yuva420p"),
        AlphaMode::WebmAv1 => ("libaom-av1", "yuva420p"),
        AlphaMode::MovProres => ("prores_ks", "yuva444p10le"),
        AlphaMode::MkvFfv1 => ("ffv1", "yuva444p"),
    };
    push_arg(a, "-c:v");
    push_arg(a, codec);
    push_arg(a, "-pix_fmt");
    push_arg(a, pix_fmt);
    let ghost a1 = views(a@);
    match mode {
        AlphaMode::WebmVp9 => {
            push_alpha_quality(cfg, 18, a);
            push_arg(a, "-deadline");
            push_arg(a, "good");
            push_arg(a, "-cpu-used");
            push_arg(a, "2");
            push_arg(a, "-row-mt");
            push_arg(a, "1");
        },
        AlphaMode::WebmAv1 => {
            push_alpha_quality(cfg, 30, a);
            push_arg(a, "-cpu-used");
            push_arg(a, "6");
            push_arg(a, "-row-mt");
            push_arg(a, "1");
        },
        AlphaMode::MovProres => {
            push_arg(a, "-profile:v");
            push_arg(a, "4444");
            push_arg(a, "-vendor");
            push_arg(a, "apl0");
        },
        AlphaMode::MkvFfv1 => {
            push_arg(a, "-level");
            push_arg(a, "3");
        },
    }
    let ghost a2 = views(a@);
    push_words(a, &cfg.extra);
    assert(views(a@) =~= views(old(a)@) + alpha_args(mode, cfg@));
}

/// The input side: raw frames of the negotiated format on stdin, with the
/// QSV device set up when that encoder is used.
pub open spec fn input_args(c: ConfigView, pix_fmt: Seq<char>, width: i32, height: i32, rate: Seq<char>) -> Seq<Seq<char>> {
    let qsv = is_qsv(c) && alpha_mode_spec(c.alpha_format) is None;
    seq!["-y"@, "-hide_banner"@, "-loglevel"@, "error"@, "-nostdin"@]
    + (if qsv { seq!["-init_hw_device"@, "qsv=hw"@, "-filter_hw_device"@, "hw"@] } else { seq![] })
    + seq![
        "-f"@, "rawvideo"@, "-pix_fmt"@, pix_fmt, "-s"@,
        dec_int(width as int) + "x"@ + dec_int(height as int), "-r"@, rate, "-i"@, "pipe:0"@,
    ]
}

/// The H.264 elementary stream for the DirectShow AVI Mux, on stdout.
pub open spec fn avi_side_args(bottom_up: bool) -> Seq<Seq<char>> {
    (if bottom_up { seq!["-vf"@, "vflip"@] } else { seq![] }) + seq![
        "-map"@, "0:v"@, "-c:v"@, "libx264"@, "-preset"@, "ultrafast"@, "-pix_fmt"@, "yuv420p"@,
        "-f"@, "h264"@, "pipe:1"@,
    ]
}

/// The tee muxer URL writing one encoded stream to the container file and
/// to stdout.
pub open spec fn tee_url(fmt_name: Seq<char>, path: Seq<char>, mux: Seq<char>) -> Seq<char> {
    "[f="@ + fmt_name + ":onfail=ignore]"@ + tee_escape_spec(path) + "|[f="@ + mux + "]pipe\\:1"@
}

/// The output side of an opaque render.
pub open spec fn output_args(c: ConfigView, bottom_up: bool) -> Seq<Seq<char>> {
    let mux = mux_for(c.codec, c.alpha_format).1;
    codec_args(c, bottom_up) + seq!["-map"@, "0:v"@] + if c.container.len() > 0
        && c.container_path.len() > 0 {
        let fmt_name = container_format_spec(c.container);
        if fmt_name == "matroska"@ || fmt_name == "mov"@ || fmt_name == "webm"@ {
            seq![c.container_path] + avi_side_args(bottom_up)
        } else {
            seq!["-f"@, "tee"@, tee_url(fmt_name, c.container_path, mux)]
        }
    } else {
        seq!["-f"@, mux, "pipe:1"@]
    }
}

/// The output side of a transparent render: the transparent file, then the
/// elementary stream for the AVI side.
pub open spec fn transparent_args(c: ConfigView, mode: AlphaMode, bottom_up: bool) -> Seq<Seq<char>> {
    (if bottom_up { seq!["-vf"@, "vflip"@] } else { seq![] }) + seq!["-map"@, "0:v"@] + alpha_args(mode, c)
        + seq![if c.container_path.len() == 0 { "transparent.out"@ } else { c.container_path }]
        + avi_side_args(bottom_up)
}

/// The full ffmpeg command line; `rate` is the frame rate as text.
pub open spec fn ffmpeg_args(c: ConfigView, pix_fmt: Seq<char>, width: i32, height: i32, bottom_up: bool, rate: Seq<char>) -> Seq<Seq<char>> {
    input_args(c, pix_fmt, width, height, rate) + match alpha_mode_spec(c.alpha_format) {
        Some(mode) => transparent_args(c, mode, bottom_up),
        None => output_args(c, bottom_up),
    }
}

fn push_avi_side(bottom_up: bool, a: &mut Vec<String>)
    ensures
        views(final(a)@) == views(old(a)@) + avi_side_args(bottom_up),
{
    if bottom_up {
        push_arg(a, "-vf");
        push_arg(a, "vflip");
    }
    push_arg(a, "-map");
    push_arg(a, "0:v");
    push_arg(a, "-c:v");
    push_arg(a, "libx264");
    push_arg(a, "-preset");
    push_arg(a, "ultrafast");
    push_arg(a, "-pix_fmt");
    push_arg(a, "yuv420p");
    push_arg(a, "-f");
    push_arg(a, "h264");
    push_arg(a, "pipe:1");
    assert(views(a@) =~= views(old(a)@) + avi_side_args(bottom_up));
}

fn push_input_args(cfg: &Config, fmt: &FormatInfo, rate: &str, qsv: bool, a: &mut Vec<String>)
    requires
        qsv == (is_qsv(cfg@) && alpha_mode_spec(cfg.alpha_format@) is None),
    ensures
        views(final(a)@) == views(old(a)@) + input_args(cfg@, fmt.pix_fmt@, fmt.width, fmt.height, rate@),
{
    push_arg(a, "-y");
    push_arg(a, "-hide_banner");
    push_arg(a, "-loglevel");
    push_arg(a, "error");
    push_arg(a, "-nostdin");
    let ghost a1 = views(a@);
    if qsv {
        // Make sure QSV really uses the Intel media engine: initialize the
        // device explicitly and upload frames to it before encoding.
        push_arg(a, "-init_hw_device");
        push_arg(a, "qsv=hw");
        push_arg(a, "-filter_hw_device");
        push_arg(a, "hw");
    }
    let ghost a2 = views(a@);
    push_arg(a, "-f");
    push_arg(a, "rawvideo");
    push_arg(a, "-pix_fmt");
    push_string(a, fmt.pix_fmt.clone());
    push_arg(a, "-s");
    let mut size = decimal(fmt.width as i64);
    append_text(&mut size, "x");
    append_text(&mut size, decimal(fmt.height as i64).as_str());
    push_string(a, size);
    push_arg(a, "-r");
    push_arg(a, rate);
    push_arg(a, "-i");
    push_arg(a, "pipe:0");
    assert(views(a@) =~= views(old(a)@) + input_args(cfg@, fmt.pix_fmt@, fmt.width, fmt.height, rate@));
}

fn push_output_args(cfg: &Config, fmt: &FormatInfo, mux: &str, a: &mut Vec<String>)
    requires
        mux@ == mux_for(cfg.codec@, cfg.alpha_format@).1,
    ensures
        views(final(a)@) == views(old(a)@) + output_args(cfg@, fmt.bottom_up),
{
    build_codec_args(cfg, fmt, a);
    push_arg(a, "-map");
    push_arg(a, "0:v");
    let ghost a1 = views(a@);
    if !cfg.container.as_str().is_empty() && !cfg.container_path.as_str().is_empty() {
        let fmt_name = container_format(cfg.container.as_str());
        let fv = chars_of(fmt_name);
        let direct = same(fv.as_slice(), "matroska") || same(fv.as_slice(), "mov") || same(
            fv.as_slice(),
            "webm",
        );
        if direct {
            // Some muxers (matroska/mov/webm) fail as tee slaves, so write
            // the container directly and produce the AVI-side elementary
            // stream as a second output.
            push_string(a, cfg.container_path.clone());
            push_avi_side(fmt.bottom_up, a);
        } else {
            // Dual output via tee: the encoded stream goes to the extra
            // container AND to our stdout as an elementary stream.
            let mut url = owned("[f=");
            append_text(&mut url, fmt_name);
            append_text(&mut url, ":onfail=ignore]");
            append_text(&mut url, tee_escape(cfg.container_path.as_str()).as_str());
            append_text(&mut url, "|[f=");
            append_text(&mut url, mux);
            append_text(&mut url, "]pipe\\:1");
            push_arg(a, "-f");
            push_arg(a, "tee");
            push_string(a, url);
        }
    } else {
        push_arg(a, "-f");
        push_arg(a, mux);
        push_arg(a, "pipe:1");
    }
    assert(views(a@) =~= views(old(a)@) + output_args(cfg@, fmt.bottom_up));
}

fn push_transparent_args(cfg: &Config, fmt: &FormatInfo, mode: AlphaMode, a: &mut Vec<String>)
    ensures
        views(final(a)@) == views(old(a)@) + transparent_args(cfg@, mode, fmt.bottom_up),
{
    // Transparent final file (WebM/MOV/MKV with alpha) ...
    if fmt.bottom_up {
        push_arg(a, "-vf");
        push_arg(a, "vflip");
    }
    push_arg(a, "-map");
    push_arg(a, "0:v");
    let ghost a1 = views(a@);
    alpha_output_args(mode, cfg, a);
    let ghost a2 = views(a@);
    if cfg.container_path.as_str().is_empty() {
        push_arg(a, "transparent.out");
    } else {
        push_string(a, cfg.container_path.clone());
    }
    let ghost a3 = views(a@);
    // ... plus an H.264 elementary stream on stdout for the DirectShow AVI
    // Mux (the temporary AVI is deleted after rendering).
    push_avi_side(fmt.bottom_up, a);
    assert(views(a@) =~= views(old(a)@) + transparent_args(cfg@, mode, fmt.bottom_up));
}

/// The ffmpeg command line for a render. `rate` is the frame rate as text
/// (10,000,000 divided by the frame duration).
pub fn build_args(cfg: &Config, fmt: &FormatInfo, rate: &str) -> (r: Vec<String>)
    ensures
        views(r@) == ffmpeg_args(cfg@, fmt.pix_fmt@, fmt.width, fmt.height, fmt.bottom_up, rate@),
{
    let (_, mux) = pick_fourcc_mux(cfg.codec.as_str(), cfg.alpha_format.as_str());
    let alpha = alpha_mode(cfg);
    let qsv = text_has(&cfg.codec, "qsv") && alpha.is_none();
    let mut a: Vec<String> = Vec::new();
    push_input_args(cfg, fmt, rate, qsv, &mut a);
    let ghost a1 = views(a@);
    match alpha {
        Some(mode) => push_transparent_args(cfg, fmt, mode, &mut a),
        None => push_output_args(cfg, fmt, mux, &mut a),
    }
    assert(views(a@) =~= ffmpeg_args(cfg@, fmt.pix_fmt@, fmt.width, fmt.height, fmt.bottom_up, rate@));
    a
}


// ---------------------------------------------------------------------------
// Encoder probing
// ---------------------------------------------------------------------------

/// The probe command: one black 160x120 frame from lavfi, encoded with the
/// configured encoder and the same encoder options a render uses, to a null
/// output.
pub open spec fn probe_args_spec(c: ConfigView) -> Seq<Seq<char>> {
    let alpha = alpha_mode_spec(c.alpha_format);
    seq!["-hide_banner"@, "-loglevel"@, "warning"@]
    + (if is_qsv(c) && alpha is None {
        seq!["-init_hw_device"@, "qsv=hw"@, "-filter_hw_device"@, "hw"@]
    } else {
        seq![]
    })
    + seq![
        "-f"@, "lavfi"@, "-i"@, "color=black:s=160x120:r=30:d=1"@, "-frames:v"@, "1"@, "-map"@,
        "0:v"@,
    ]
    + match alpha {
        Some(mode) => alpha_args(mode, c),
        None => codec_args(c, false),
    }
    + seq!["-f"@, "null"@, "-"@]
}

/// Arguments of the quick check that the configured encoder can actually be
/// opened by this ffmpeg build and driver.
pub fn probe_args(cfg: &Config) -> (r: Vec<String>)
    ensures
        views(r@) == probe_args_spec(cfg@),
{
    let mut args: Vec<String> = Vec::new();
    push_arg(&mut args, "-hide_banner");
    push_arg(&mut args, "-loglevel");
    push_arg(&mut args, "warning");
    let alpha = alpha_mode(cfg);
    let ghost a1 = views(args@);
    if text_has(&cfg.codec, "qsv") && alpha.is_none() {
        push_arg(&mut args, "-init_hw_device");
        push_arg(&mut args, "qsv=hw");
        push_arg(&mut args, "-filter_hw_device");
        push_arg(&mut args, "hw");
    }
    let ghost a2 = views(args@);
    push_arg(&mut args, "-f");
    push_arg(&mut args, "lavfi");
    push_arg(&mut args, "-i");
    push_arg(&mut args, "color=black:s=160x120:r=30:d=1");
    push_arg(&mut args, "-frames:v");
    push_arg(&mut args, "1");
    push_arg(&mut args, "-map");
    push_arg(&mut args, "0:v");
    let ghost a3 = views(args@);
    match alpha {
        Some(mode) => alpha_output_args(mode, cfg, &mut args),
        None => {
            let probe_fmt = FormatInfo {
                width: 160,
                height: 120,
                bpp: 24,
                bottom_up: false,
                pix_fmt: owned("bgr24"),
                frame_dur: 333_333,
            };
            build_codec_args(cfg, &probe_fmt, &mut args);
        },
    }
    let ghost a4 = views(args@);
    push_arg(&mut args, "-f");
    push_arg(&mut args, "null");
    push_arg(&mut args, "-");
    assert(views(args@) =~= probe_args_spec(cfg@));
    args
}

/// What a probe's output shows: success, unless ffmpeg failed or silently
/// dropped the alpha channel (it then reports an incompatible or
/// auto-selected pixel format).
pub open spec fn probe_verdict(exited_ok: bool, stderr: Seq<char>) -> bool {
    exited_ok && !(contains(stderr, "Incompatible pixel format"@) || contains(
        stderr,
        "auto-selecting format"@,
    ))
}

/// Whether the configured encoder can actually be opened by this ffmpeg
/// build and driver, judged from the finished probe run of `probe_args`:
/// whether ffmpeg exited successfully (a run that had to be killed after
/// its time limit did not) and what it wrote to stderr.
pub fn codec_supported(exited_ok: bool, stderr: &str) -> (r: bool)
    ensures
        r == probe_verdict(exited_ok, stderr@),
{
    let v = chars_of(stderr);
    // Some encoders silently fall back to a non-alpha pixel format when they
    // do not support yuva* (e.g. libaom-av1). Treat that as unsupported.
    let alpha_dropped = has(v.as_slice(), "Incompatible pixel format") || has(
        v.as_slice(),
        "auto-selecting format",
    );
    exited_ok && !alpha_dropped
}

/// Whether a codec name asks for automatic selection.
pub open spec fn is_auto_codec(codec: Seq<char>) -> bool {
    starts_with(lower_seq(trim(codec)), "auto"@)
}

/// Whether a codec name asks for automatic selection.
pub fn wants_auto_codec(codec: &str) -> (r: bool)
    ensures
        r == is_auto_codec(codec@),
{
    let v = chars_of(codec);
    let t = trimmed(v.as_slice());
    let l = lowercase(t.as_slice());
    begins(l.as_slice(), "auto")
}

/// The encoders tried, in order, for an automatic codec name: NVENC, QSV,
/// AMF, then the CPU encoder.
pub open spec fn auto_candidates(codec: Seq<char>) -> Seq<Seq<char>> {
    let base = lower_seq(trim(codec));
    if contains(base, "265"@) || contains(base, "hevc"@) {
        seq!["hevc_nvenc"@, "hevc_qsv"@, "hevc_amf"@, "libx265"@]
    } else if contains(base, "av1"@) {
        seq!["av1_nvenc"@, "av1_qsv"@, "av1_amf"@, "libaom-av1"@]
    } else {
        seq!["h264_nvenc"@, "h264_qsv"@, "h264_amf"@, "libx264"@]
    }
}

/// The next step of resolving an automatic codec name.
pub enum CodecStep {
    /// The codec to use.
    Use(String),
    /// Probe this configuration and report whether it passed.
    Probe(Config),
}

/// What resolving a codec does after `verdicts`, the results of the probes
/// made so far in candidate order.
pub open spec fn codec_step_spec(c: ConfigView, verdicts: Seq<bool>) -> (Seq<char>, bool) {
    let cands = auto_candidates(c.codec);
    if !is_auto_codec(c.codec) {
        (c.codec, false)
    } else if exists|i: int| 0 <= i < verdicts.len() && i < 4 && verdicts[i] {
        let i = choose|i: int| 0 <= i < verdicts.len() && i < 4 && verdicts[i] && forall|j: int|
            0 <= j < i ==> !verdicts[j];
        (cands[i], false)
    } else if verdicts.len() >= 4 {
        (cands[3], false)
    } else {
        (cands[verdicts.len() as int], true)
    }
}

/// Resolves "auto*" codec names (written by the configuration program's
/// automatic option) to the first encoder this machine supports: NVENC ->
/// QSV -> AMF -> CPU. Each call is given the verdicts of the probes made so
/// far and either names the codec or asks for the next probe, made with the
/// configuration whose codec is the next candidate.
pub fn resolve_codec(cfg: &Config, verdicts: &Vec<bool>) -> (r: CodecStep)
    ensures
        match r {
            CodecStep::Use(codec) => codec_step_spec(cfg@, verdicts@) == (codec@, false),
            CodecStep::Probe(p) => {
                &&& codec_step_spec(cfg@, verdicts@) == (p.codec@, true)
                &&& p@ == (ConfigView { codec: p.codec@, ..cfg@ })
            },
        },
{
    let cv = chars_of(cfg.codec.as_str());
    let t = trimmed(cv.as_slice());
    let base = lowercase(t.as_slice());
    let b = base.as_slice();
    if !begins(b, "auto") {
        return CodecStep::Use(cfg.codec.clone());
    }
    let candidates: [&str; 4] = if has(b, "265") || has(b, "hevc") {
        ["hevc_nvenc", "hevc_qsv", "hevc_amf", "libx265"]
    } else if has(b, "av1") {
        ["av1_nvenc", "av1_qsv", "av1_amf", "libaom-av1"]
    } else {
        ["h264_nvenc", "h264_qsv", "h264_amf", "libx264"]
    };
    let ghost cands = auto_candidates(cfg.codec@);
    assert(forall|k: int| 0 <= k < 4 ==> (#[trigger] candidates@[k])@ == cands[k]);
    let mut i: usize = 0;
    while i < verdicts.len() && i < 4
        invariant
            i <= verdicts.len(),
            i <= 4,
            is_auto_codec(cfg.codec@),
            cands == auto_candidates(cfg.codec@),
            forall|k: int| 0 <= k < 4 ==> (#[trigger] candidates@[k])@ == cands[k],
            forall|j: int| 0 <= j < i ==> !verdicts@[j],
        decreases 4 - i,
    {
        if verdicts[i] {
            proof {
                let k = choose|k: int| 0 <= k < verdicts@.len() && k < 4 && verdicts@[k] && forall|j: int|
                    0 <= j < k ==> !verdicts@[j];
                assert(0 <= i < verdicts@.len() && i < 4 && verdicts@[i as int]);
                assert(k == i as int) by {
                    if k < i {
                    } else if k > i {
                        assert(!verdicts@[i as int]);
                    }
                }
            }
            return CodecStep::Use(owned(candidates[i]));
        }
        i = i + 1;
    }
    if i >= 4 {
        return CodecStep::Use(owned(candidates[3]));
    }
    let mut probe = cfg.duplicate();
    probe.codec = owned(candidates[i]);
    CodecStep::Probe(probe)
}

/// stderr messages that mean the encoder could not be opened (e.g. the
/// ffmpeg build is too new for the installed NVIDIA driver).
pub open spec fn fail_keywords() -> Seq<Seq<char>> {
    seq![
        "Driver does not support"@,
        "Could not open encoder"@,
        "Error while opening encoder"@,
        "Error opening output file"@,
        "Unknown encoder"@,
        "No NVENC capable"@,
        "Conversion failed!"@,
    ]
}

/// The first failure message, in the order above, that `text` contains.
pub open spec fn failure_in(text: Seq<char>) -> Option<Seq<char>> {
    if exists|i: int| 0 <= i < 7 && contains(text, fail_keywords()[i]) {
        let i = choose|i: int| 0 <= i < 7 && contains(text, fail_keywords()[i]) && forall|j: int|
            0 <= j < i ==> !contains(text, fail_keywords()[j]);
        Some(fail_keywords()[i])
    } else {
        None
    }
}

/// The failure message ffmpeg's stderr shows, if any.
pub fn encoder_failure(text: &str) -> (r: Option<&'static str>)
    ensures
        match r {
            Some(k) => failure_in(text@) == Some(k@),
            None => failure_in(text@) is None,
        },
{
    let keywords: [&str; 7] = [
        "Driver does not support",
        "Could not open encoder",
        "Error while opening encoder",
        "Error opening output file",
        "Unknown encoder",
        "No NVENC capable",
        "Conversion failed!",
    ];
    assert(forall|k: int| 0 <= k < 7 ==> (#[trigger] keywords@[k])@ == fail_keywords()[k]);
    let v = chars_of(text);
    let mut i: usize = 0;
    while i < 7
        invariant
            i <= 7,
            v@ == text@,
            forall|k: int| 0 <= k < 7 ==> (#[trigger] keywords@[k])@ == fail_keywords()[k],
            forall|j: int| 0 <= j < i ==> !contains(text@, fail_keywords()[j]),
        decreases 7 - i,
    {
        if has(v.as_slice(), keywords[i]) {
            proof {
                assert(keywords@[i as int]@ == fail_keywords()[i as int]);
                let k = choose|k: int| 0 <= k < 7 && contains(text@, fail_keywords()[k]) && forall|j: int|
                    0 <= j < k ==> !contains(text@, fail_keywords()[j]);
                assert(0 <= i < 7 && contains(text@, fail_keywords()[i as int]));
                assert(k == i as int) by {
                    if k < i {
                    } else if k > i {
                        assert(!contains(text@, fail_keywords()[i as int]));
                    }
                }
            }
            return Some(keywords[i]);
        }
        assert(keywords@[i as int]@ == fail_keywords()[i as int]);
        i = i + 1;
    }
    None
}

/// How many times ffmpeg's start is looked at, 50 ms apart, before the
/// frames are sent.
pub const STARTUP_POLLS: u32 = 100;

/// What to do at one look at a starting ffmpeg.
#[derive(Debug)]
pub enum StartupCheck {
    /// ffmpeg has already exited: starting failed.
    Exited,
    /// ffmpeg reported that it could not open the encoder, with this
    /// message.
    EncoderFailed(&'static str),
    /// Nothing wrong so far: wait 50 ms, then look again if `true`, or go
    /// on and send the frames if `false`.
    Wait(bool),
}

/// Look number `poll` (from 0) at a starting ffmpeg, given whether it has
/// exited and what it wrote to stderr so far: an exit fails first, then a
/// failure message, else it waits, and after the last look it goes on.
pub fn startup_check(poll: u32, exited: bool, stderr: &str) -> (r: StartupCheck)
    ensures
        match r {
            StartupCheck::Exited => exited,
            StartupCheck::EncoderFailed(k) => !exited && failure_in(stderr@) == Some(k@),
            StartupCheck::Wait(again) => !exited && failure_in(stderr@) is None && again == (poll + 1
                < STARTUP_POLLS),
        },
{
    if exited {
        return StartupCheck::Exited;
    }
    match encoder_failure(stderr) {
        Some(k) => StartupCheck::EncoderFailed(k),
        None => StartupCheck::Wait(poll < STARTUP_POLLS - 1),
    }
}

/// The kind of elementary stream a mux name stands for.
pub open spec fn codec_kind_spec(mux: Seq<char>) -> CodecKind {
    if mux == "h264"@ {
        CodecKind::H264
    } else if mux == "hevc"@ {
        CodecKind::H265
    } else {
        CodecKind::Other
    }
}

pub fn codec_kind_for_mux(mux: &str) -> (r: CodecKind)
    ensures
        r == codec_kind_spec(mux@),
{
    let v = chars_of(mux);
    if same(v.as_slice(), "h264") {
        CodecKind::H264
    } else if same(v.as_slice(), "hevc") {
        CodecKind::H265
    } else {
        CodecKind::Other
    }
}

// ---------------------------------------------------------------------------
// Laws of the command lines
// ---------------------------------------------------------------------------

/// An opaque render into a Matroska, QuickTime or WebM container (`mkv`,
/// `matroska`, `mov` or `webm` in any case) writes that file directly:
/// after the encoder options the command line maps the video to the
/// container path as a plain output, then to an H.264 elementary stream on
/// stdout for the AVI side; no tee muxer is used.
pub proof fn law_direct_container_output(
    c: ConfigView,
    pix_fmt: Seq<char>,
    width: i32,
    height: i32,
    bottom_up: bool,
    rate: Seq<char>,
)
    requires
        alpha_mode_spec(c.alpha_format) is None,
        c.container_path.len() > 0,
        lower_seq(c.container) == "mkv"@ || lower_seq(c.container) == "matroska"@ || lower_seq(c.container)
            == "mov"@ || lower_seq(c.container) == "webm"@,
    ensures
        ffmpeg_args(c, pix_fmt, width, height, bottom_up, rate) == input_args(c, pix_fmt, width, height, rate)
            + codec_args(c, bottom_up) + seq!["-map"@, "0:v"@, c.container_path] + (if bottom_up {
            seq!["-vf"@, "vflip"@]
        } else {
            seq![]
        }) + seq![
            "-map"@, "0:v"@, "-c:v"@, "libx264"@, "-preset"@, "ultrafast"@, "-pix_fmt"@, "yuv420p"@, "-f"@,
            "h264"@, "pipe:1"@,
        ],
{
    reveal_strlit("mp4");
    reveal_strlit("m4v");
    reveal_strlit("mkv");
    reveal_strlit("matroska");
    reveal_strlit("mov");
    reveal_strlit("webm");
    reveal_strlit("ts");
    reveal_strlit("mpegts");
    assert(c.container.len() == lower_seq(c.container).len());
    let l = lower_seq(c.container);
    assert(l != "mp4"@ && l != "m4v"@) by {
        assert("mp4"@[1] == 'p' && "m4v"@[1] == '4');
        assert(l[1] == 'k' || l[1] == 'a' || l[1] == 'o' || l[1] == 'e');
    }
    let f = container_format_spec(c.container);
    assert(f == "matroska"@ || f == "mov"@ || f == "webm"@);
    let tail = (if bottom_up {
        seq!["-vf"@, "vflip"@]
    } else {
        seq![]
    }) + seq![
        "-map"@, "0:v"@, "-c:v"@, "libx264"@, "-preset"@, "ultrafast"@, "-pix_fmt"@, "yuv420p"@, "-f"@,
        "h264"@, "pipe:1"@,
    ];
    assert(avi_side_args(bottom_up) == tail);
    assert(output_args(c, bottom_up) =~= codec_args(c, bottom_up) + seq!["-map"@, "0:v"@, c.container_path]
        + tail);
}

/// An opaque render into an MP4 or MPEG-TS container (`mp4`, `m4v`, `ts`
/// or `mpegts` in any case) encodes once and writes the stream twice
/// through the tee muxer: to the container path, with failures there
/// ignored, and as the codec's elementary stream on stdout.
pub proof fn law_tee_container_output(
    c: ConfigView,
    pix_fmt: Seq<char>,
    width: i32,
    height: i32,
    bottom_up: bool,
    rate: Seq<char>,
)
    requires
        alpha_mode_spec(c.alpha_format) is None,
        c.container_path.len() > 0,
        lower_seq(c.container) == "mp4"@ || lower_seq(c.container) == "m4v"@ || lower_seq(c.container)
            == "ts"@ || lower_seq(c.container) == "mpegts"@,
    ensures
        ffmpeg_args(c, pix_fmt, width, height, bottom_up, rate) == input_args(c, pix_fmt, width, height, rate)
            + codec_args(c, bottom_up) + seq![
            "-map"@,
            "0:v"@,
            "-f"@,
            "tee"@,
            "[f="@ + (if lower_seq(c.container) == "mp4"@ || lower_seq(c.container) == "m4v"@ {
                "mp4"@
            } else {
                "mpegts"@
            }) + ":onfail=ignore]"@ + tee_escape_spec(c.container_path) + "|[f="@ + mux_for(
                c.codec,
                c.alpha_format,
            ).1 + "]pipe\\:1"@,
        ],
{
    reveal_strlit("mp4");
    reveal_strlit("m4v");
    reveal_strlit("mkv");
    reveal_strlit("matroska");
    reveal_strlit("mov");
    reveal_strlit("webm");
    reveal_strlit("ts");
    reveal_strlit("mpegts");
    assert(c.container.len() == lower_seq(c.container).len());
    let l = lower_seq(c.container);
    let f = container_format_spec(c.container);
    if l == "mp4"@ || l == "m4v"@ {
        assert(f == "mp4"@);
    } else {
        assert(l != "mkv"@ && l != "matroska"@ && l != "mov"@ && l != "webm"@) by {
            assert(l[0] == 't' || l[0] == 'm');
            if l[0] == 'm' {
                assert(l[1] == 'p');
                assert("mkv"@[1] == 'k' && "matroska"@[1] == 'a' && "mov"@[1] == 'o');
            }
        }
        assert(f == "mpegts"@);
    }
    assert(f != "matroska"@ && f != "mov"@ && f != "webm"@) by {
        assert("matroska"@[1] == 'a' && "mov"@[1] == 'o' && "webm"@[0] == 'w');
        assert(f[0] == 'm' && f[1] == 'p');
    }
}

/// Resolving an automatic codec whose candidates are `list` tries them in
/// order: every probe asked for and every codec chosen is in `list`; the
/// first that passed its probe is chosen, else the next is probed, else the
/// last is chosen once all four failed.
proof fn lemma_auto_order(c: ConfigView, verdicts: Seq<bool>, list: Seq<Seq<char>>)
    requires
        is_auto_codec(c.codec),
        auto_candidates(c.codec) == list,
        list.len() == 4,
    ensures
        ({
            let step = codec_step_spec(c, verdicts);
            &&& exists|i: int| 0 <= i < 4 && step.0 == list[i]
            &&& (forall|j: int| 0 <= j < verdicts.len() ==> !verdicts[j]) ==> step == if verdicts.len() < 4 {
                (list[verdicts.len() as int], true)
            } else {
                (list[3], false)
            }
            &&& forall|i: int|
                0 <= i < verdicts.len() && i < 4 && verdicts[i] && (forall|j: int| 0 <= j < i ==> !verdicts[j])
                    ==> step == (list[i], false)
        }),
{
    let step = codec_step_spec(c, verdicts);
    if exists|i: int| 0 <= i < verdicts.len() && i < 4 && verdicts[i] {
        let k = choose|i: int| 0 <= i < verdicts.len() && i < 4 && verdicts[i] && forall|j: int|
            0 <= j < i ==> !verdicts[j];
        assert(exists|i: int| 0 <= i < verdicts.len() && i < 4 && verdicts[i] && forall|j: int|
            0 <= j < i ==> !verdicts[j]) by {
            let w = choose|i: int| 0 <= i < verdicts.len() && i < 4 && verdicts[i];
            lemma_first_true(verdicts, w);
        }
        assert(step == (list[k], false));
        assert(0 <= k < 4 && step.0 == list[k]);
        assert forall|i: int|
            0 <= i < verdicts.len() && i < 4 && verdicts[i] && (forall|j: int| 0 <= j < i ==> !verdicts[j])
                implies step == (list[i], false) by {
            if i < k {
                assert(!verdicts[i]);
            } else if i > k {
                assert(!verdicts[k]);
            }
        }
    } else if verdicts.len() >= 4 {
        assert(step.0 == list[3]);
    } else {
        assert(step.0 == list[verdicts.len() as int]);
    }
}

/// The encoders an automatic AV1 choice tries: for an automatic codec name
/// whose trimmed lower-case text contains `av1` (and neither `265` nor
/// `hevc`), every probe asked for and every codec chosen is one of
/// `av1_nvenc`, `av1_qsv`, `av1_amf`, `libaom-av1`, tried in that order: the
/// first that passed its probe, else the next to probe, else `libaom-av1`
/// once all four failed.
pub proof fn law_auto_av1_codecs(c: ConfigView, verdicts: Seq<bool>)
    requires
        is_auto_codec(c.codec),
        contains(lower_seq(trim(c.codec)), "av1"@),
        !contains(lower_seq(trim(c.codec)), "265"@),
        !contains(lower_seq(trim(c.codec)), "hevc"@),
    ensures
        ({
            let av1 = seq!["av1_nvenc"@, "av1_qsv"@, "av1_amf"@, "libaom-av1"@];
            let step = codec_step_spec(c, verdicts);
            &&& exists|i: int| 0 <= i < 4 && step.0 == av1[i]
            &&& (forall|j: int| 0 <= j < verdicts.len() ==> !verdicts[j]) ==> step == if verdicts.len() < 4 {
                (av1[verdicts.len() as int], true)
            } else {
                (av1[3], false)
            }
            &&& forall|i: int|
                0 <= i < verdicts.len() && i < 4 && verdicts[i] && (forall|j: int| 0 <= j < i ==> !verdicts[j])
                    ==> step == (av1[i], false)
        }),
{
    lemma_auto_order(c, verdicts, seq!["av1_nvenc"@, "av1_qsv"@, "av1_amf"@, "libaom-av1"@]);
}

/// The encoders an automatic HEVC choice tries: for an automatic codec
/// name whose trimmed lower-case text contains `265` or `hevc`, they are
/// `hevc_nvenc`, `hevc_qsv`, `hevc_amf`, `libx265`, in that order (as in
/// `law_auto_av1_codecs`).
pub proof fn law_auto_hevc_codecs(c: ConfigView, verdicts: Seq<bool>)
    requires
        is_auto_codec(c.codec),
        contains(lower_seq(trim(c.codec)), "265"@) || contains(lower_seq(trim(c.codec)), "hevc"@),
    ensures
        ({
            let hevc = seq!["hevc_nvenc"@, "hevc_qsv"@, "hevc_amf"@, "libx265"@];
            let step = codec_step_spec(c, verdicts);
            &&& exists|i: int| 0 <= i < 4 && step.0 == hevc[i]
            &&& (forall|j: int| 0 <= j < verdicts.len() ==> !verdicts[j]) ==> step == if verdicts.len() < 4 {
                (hevc[verdicts.len() as int], true)
            } else {
                (hevc[3], false)
            }
            &&& forall|i: int|
                0 <= i < verdicts.len() && i < 4 && verdicts[i] && (forall|j: int| 0 <= j < i ==> !verdicts[j])
                    ==> step == (hevc[i], false)
        }),
{
    lemma_auto_order(c, verdicts, seq!["hevc_nvenc"@, "hevc_qsv"@, "hevc_amf"@, "libx265"@]);
}

/// The encoders any other automatic choice tries: `h264_nvenc`, `h264_qsv`,
/// `h264_amf`, `libx264`, in that order (as in `law_auto_av1_codecs`).
pub proof fn law_auto_h264_codecs(c: ConfigView, verdicts: Seq<bool>)
    requires
        is_auto_codec(c.codec),
        !contains(lower_seq(trim(c.codec)), "av1"@),
        !contains(lower_seq(trim(c.codec)), "265"@),
        !contains(lower_seq(trim(c.codec)), "hevc"@),
    ensures
        ({
            let h264 = seq!["h264_nvenc"@, "h264_qsv"@, "h264_amf"@, "libx264"@];
            let step = codec_step_spec(c, verdicts);
            &&& exists|i: int| 0 <= i < 4 && step.0 == h264[i]
            &&& (forall|j: int| 0 <= j < verdicts.len() ==> !verdicts[j]) ==> step == if verdicts.len() < 4 {
                (h264[verdicts.len() as int], true)
            } else {
                (h264[3], false)
            }
            &&& forall|i: int|
                0 <= i < verdicts.len() && i < 4 && verdicts[i] && (forall|j: int| 0 <= j < i ==> !verdicts[j])
                    ==> step == (h264[i], false)
        }),
{
    lemma_auto_order(c, verdicts, seq!["h264_nvenc"@, "h264_qsv"@, "h264_amf"@, "libx264"@]);
}

/// A first `true` among the verdicts at or before `w`.
proof fn lemma_first_true(vs: Seq<bool>, w: int)
    requires
        0 <= w < vs.len(),
        w < 4,
        vs[w],
    ensures
        exists|i: int| 0 <= i < vs.len() && i < 4 && vs[i] && forall|j: int| 0 <= j < i ==> !vs[j],
    decreases w,
{
    if exists|j: int| 0 <= j < w && vs[j] {
        let j = choose|j: int| 0 <= j < w && vs[j];
        lemma_first_true(vs, j);
    } else {
        assert(forall|j: int| 0 <= j < w ==> !vs[j]);
    }
}

/// The probe of a transparent configuration opens the encoder exactly as
/// the transparent render does: between `-map 0:v` and `-f null -` the
/// probe's arguments are the render's encoder arguments, those between its
/// `-map 0:v` and the output file, so the probe uses the alpha pixel format
/// and quality of the render.
pub proof fn law_probe_opens_the_alpha_encoder(
    c: ConfigView,
    pix_fmt: Seq<char>,
    width: i32,
    height: i32,
    rate: Seq<char>,
)
    requires
        alpha_mode_spec(c.alpha_format) is Some,
    ensures
        ({
            let p = probe_args_spec(c);
            let r = ffmpeg_args(c, pix_fmt, width, height, false, rate);
            let k = input_args(c, pix_fmt, width, height, rate).len() as int + 2;
            &&& p.len() >= 14 && r.len() >= k + 12
            &&& p.take(11) == seq![
                "-hide_banner"@, "-loglevel"@, "warning"@, "-f"@, "lavfi"@, "-i"@,
                "color=black:s=160x120:r=30:d=1"@, "-frames:v"@, "1"@, "-map"@, "0:v"@,
            ]
            &&& p.skip(p.len() - 3) == seq!["-f"@, "null"@, "-"@]
            &&& r.subrange(k - 2, k) == seq!["-map"@, "0:v"@]
            &&& p.subrange(11, p.len() - 3) == r.subrange(k, r.len() - 12)
        }),
{
    let mode = alpha_mode_spec(c.alpha_format)->0;
    let e = alpha_args(mode, c);
    let head = seq![
        "-hide_banner"@, "-loglevel"@, "warning"@, "-f"@, "lavfi"@, "-i"@,
        "color=black:s=160x120:r=30:d=1"@, "-frames:v"@, "1"@, "-map"@, "0:v"@,
    ];
    let p = probe_args_spec(c);
    assert(p =~= head + e + seq!["-f"@, "null"@, "-"@]);
    let i = input_args(c, pix_fmt, width, height, rate);
    let out = seq![if c.container_path.len() == 0 {
        "transparent.out"@
    } else {
        c.container_path
    }];
    let r = ffmpeg_args(c, pix_fmt, width, height, false, rate);
    assert(avi_side_args(false).len() == 11);
    assert(r =~= i + seq!["-map"@, "0:v"@] + e + out + avi_side_args(false));
    let k = i.len() as int + 2;
    assert(p.take(11) =~= head);
    assert(p.skip(p.len() - 3) =~= seq!["-f"@, "null"@, "-"@]);
    assert(r.subrange(k - 2, k) =~= seq!["-map"@, "0:v"@]);
    assert(p.subrange(11, p.len() - 3) =~= e);
    assert(r.subrange(k, r.len() - 12) =~= e);
}

} // verus!





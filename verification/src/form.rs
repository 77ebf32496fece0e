//! The configuration program's form: the settings shown as choices, the
//! choices saved as settings, and the paths it shows and writes.
use vstd::prelude::*;

use crate::config::{text_begins, text_has, text_is};
use crate::paths::{file_name, join, joined, parent_name, parent_text, split_file_name};
use crate::text::{
    append_text, chars_of, contains, occurs_at, dec_int, decimal, lower_seq, lowercase, owned, parse_i32, parse_int,
    push_char, same, starts_with, string_of, trim, trimmed, views,
};
use crate::ui::{Config, ConfigView};

verus! {

/// The codec setting for a vendor (0 automatic, 1 NVIDIA, 2 Intel, 3 AMD,
/// else CPU) and a codec family (0 H.264, 1 HEVC, else AV1).
pub open spec fn codec_for_spec(vendor: int, codec: int) -> Seq<char> {
    let f = if codec == 0 {
        0int
    } else if codec == 1 {
        1int
    } else {
        2int
    };
    if vendor == 0 {
        if f == 0 { "auto"@ } else if f == 1 { "auto265"@ } else { "autoav1"@ }
    } else if vendor == 1 {
        if f == 0 { "h264_nvenc"@ } else if f == 1 { "hevc_nvenc"@ } else { "av1_nvenc"@ }
    } else if vendor == 2 {
        if f == 0 { "h264_qsv"@ } else if f == 1 { "hevc_qsv"@ } else { "av1_qsv"@ }
    } else if vendor == 3 {
        if f == 0 { "h264_amf"@ } else if f == 1 { "hevc_amf"@ } else { "av1_amf"@ }
    } else {
        if f == 0 { "libx264"@ } else if f == 1 { "libx265"@ } else { "libaom-av1"@ }
    }
}

pub fn codec_for(vendor: usize, codec: usize) -> (r: &'static str)
    ensures
        r@ == codec_for_spec(vendor as int, codec as int),
{
    let f: u8 = if codec == 0 {
        0
    } else if codec == 1 {
        1
    } else {
        2
    };
    match vendor {
        0 => if f == 0 { "auto" } else if f == 1 { "auto265" } else { "autoav1" },
        1 => if f == 0 { "h264_nvenc" } else if f == 1 { "hevc_nvenc" } else { "av1_nvenc" },
        2 => if f == 0 { "h264_qsv" } else if f == 1 { "hevc_qsv" } else { "av1_qsv" },
        3 => if f == 0 { "h264_amf" } else if f == 1 { "hevc_amf" } else { "av1_amf" },
        _ => if f == 0 { "libx264" } else if f == 1 { "libx265" } else { "libaom-av1" },
    }
}

/// The preset saved with a codec.
pub open spec fn preset_for_spec(codec: Seq<char>) -> Seq<char> {
    if starts_with(codec, "auto"@) {
        "veryfast"@
    } else if contains(codec, "nvenc"@) {
        "p4"@
    } else if contains(codec, "amf"@) {
        "balanced"@
    } else {
        "veryfast"@
    }
}

pub fn preset_for(codec: &str) -> (r: &'static str)
    ensures
        r@ == preset_for_spec(codec@),
{
    let c = owned(codec);
    if text_begins(&c, "auto") {
        "veryfast"
    } else if text_has(&c, "nvenc") {
        "p4"
    } else if text_has(&c, "amf") {
        "balanced"
    } else {
        "veryfast"
    }
}

/// The vendor choice of a codec setting.
pub open spec fn vendor_of_spec(codec: Seq<char>) -> int {
    if starts_with(codec, "auto"@) {
        0
    } else if contains(codec, "nvenc"@) {
        1
    } else if contains(codec, "qsv"@) {
        2
    } else if contains(codec, "amf"@) {
        3
    } else {
        4
    }
}

pub fn vendor_of(codec: &str) -> (r: usize)
    ensures
        r == vendor_of_spec(codec@),
{
    let c = owned(codec);
    if text_begins(&c, "auto") {
        0
    } else if text_has(&c, "nvenc") {
        1
    } else if text_has(&c, "qsv") {
        2
    } else if text_has(&c, "amf") {
        3
    } else {
        4
    }
}

/// The codec family choice of a codec setting.
pub open spec fn codec_of_spec(codec: Seq<char>) -> int {
    if contains(codec, "265"@) || contains(codec, "hevc"@) {
        1
    } else if contains(codec, "av1"@) || contains(codec, "aom"@) {
        2
    } else {
        0
    }
}

pub fn codec_of(codec: &str) -> (r: usize)
    ensures
        r == codec_of_spec(codec@),
{
    let c = owned(codec);
    if text_has(&c, "265") || text_has(&c, "hevc") {
        1
    } else if text_has(&c, "av1") || text_has(&c, "aom") {
        2
    } else {
        0
    }
}

/// The container choice: 0 MP4, 1 MKV, 2 none (AVI only).
pub open spec fn container_of_spec(container: Seq<char>) -> int {
    if container.len() == 0 {
        2
    } else if container == "mkv"@ || container == "matroska"@ {
        1
    } else {
        0
    }
}

pub fn container_of(cfg: &Config) -> (r: usize)
    ensures
        r == container_of_spec(cfg.container@),
{
    let v = chars_of(cfg.container.as_str());
    if v.len() == 0 {
        2
    } else if text_is(&cfg.container, "mkv") || text_is(&cfg.container, "matroska") {
        1
    } else {
        0
    }
}

/// The container setting of a container choice.
pub open spec fn container_str_spec(idx: int) -> Seq<char> {
    if idx == 0 {
        "mp4"@
    } else if idx == 1 {
        "mkv"@
    } else {
        ""@
    }
}

pub fn container_str(idx: usize) -> (r: &'static str)
    ensures
        r@ == container_str_spec(idx as int),
{
    match idx {
        0 => "mp4",
        1 => "mkv",
        _ => "",
    }
}

/// The transparency choice of a transparent mode setting: 1 VP9, 2
/// ProRes, 3 FFV1, else 0 (none; AV1 alpha is not offered).
pub open spec fn alpha_index_spec(alpha_format: Seq<char>) -> i32 {
    let l = lower_seq(alpha_format);
    if l == "webm_vp9"@ || l == "vp9"@ {
        1
    } else if l == "mov_prores"@ || l == "prores"@ {
        2
    } else if l == "mkv_ffv1"@ || l == "ffv1"@ {
        3
    } else {
        0
    }
}

pub fn alpha_index_of(cfg: &Config) -> (r: i32)
    ensures
        r == alpha_index_spec(cfg.alpha_format@),
{
    let v = chars_of(cfg.alpha_format.as_str());
    let l = lowercase(v.as_slice());
    let l = l.as_slice();
    if same(l, "webm_vp9") || same(l, "vp9") {
        1
    } else if same(l, "mov_prores") || same(l, "prores") {
        2
    } else if same(l, "mkv_ffv1") || same(l, "ffv1") {
        3
    } else {
        0
    }
}

/// The transparent mode setting of a transparency choice.
pub open spec fn alpha_str_spec(idx: int) -> Seq<char> {
    if idx == 0 {
        ""@
    } else if idx == 1 {
        "webm_vp9"@
    } else if idx == 2 {
        "mov_prores"@
    } else {
        "mkv_ffv1"@
    }
}

pub fn alpha_str(idx: usize) -> (r: &'static str)
    ensures
        r@ == alpha_str_spec(idx as int),
{
    match idx {
        0 => "",
        1 => "webm_vp9",
        2 => "mov_prores",
        _ => "mkv_ffv1",
    }
}

// ---------------------------------------------------------------------------
// The form
// ---------------------------------------------------------------------------

/// The choices the form shows.
pub struct FormState {
    pub vendor: i32,
    pub codec: i32,
    /// 0 quality first (CRF), 1 bit rate.
    pub rate: i32,
    /// The bit rate field, in kbit/s.
    pub kbps: String,
    pub container: i32,
    pub alpha: i32,
}

/// The bit rate field for a saved bit rate: whole kbit/s, at least 1; 8000
/// when no bit rate is set.
pub open spec fn kbps_text(bitrate: i32) -> Seq<char> {
    if bitrate > 0 {
        dec_int(if bitrate / 1000 >= 1 { bitrate / 1000 } else { 1 })
    } else {
        "8000"@
    }
}

/// The form's choices for saved settings.
pub fn form_state(cfg: &Config) -> (r: FormState)
    ensures
        r.vendor == vendor_of_spec(cfg.codec@),
        r.codec == codec_of_spec(cfg.codec@),
        r.rate == (if cfg.rate_mode@ == "cbr"@ || cfg.bitrate > 0 { 1int } else { 0int }),
        r.kbps@ == kbps_text(cfg.bitrate),
        r.container == container_of_spec(cfg.container@),
        r.alpha == alpha_index_spec(cfg.alpha_format@),
{
    let vendor = vendor_of(cfg.codec.as_str()) as i32;
    let codec = codec_of(cfg.codec.as_str()) as i32;
    let rate = if text_is(&cfg.rate_mode, "cbr") || cfg.bitrate > 0 {
        1
    } else {
        0
    };
    let kbps = if cfg.bitrate > 0 {
        let k = cfg.bitrate / 1000;
        decimal(if k >= 1 { k as i64 } else { 1 })
    } else {
        owned("8000")
    };
    FormState {
        vendor,
        codec,
        rate,
        kbps,
        container: container_of(cfg) as i32,
        alpha: alpha_index_of(cfg),
    }
}

/// A choice index read from the form; negative means none, taken as 0.
pub open spec fn choice(i: i32) -> int {
    if i > 0 {
        i as int
    } else {
        0
    }
}

/// The bit rate field as kbit/s: its number (8000 when it is not one),
/// kept between 1 and 400000.
pub open spec fn kbps_value(text: Seq<char>) -> int {
    let v = match parse_i32(trim(text)) {
        Some(v) => v as int,
        None => 8000,
    };
    if v < 1 {
        1
    } else if v > 400000 {
        400000
    } else {
        v
    }
}

/// The codec of a transparency choice.
pub open spec fn alpha_codec_spec(a: int) -> Seq<char> {
    if a == 1 {
        "libvpx-vp9"@
    } else if a == 2 {
        "prores_ks"@
    } else {
        "ffv1"@
    }
}

/// The container of a transparency choice.
pub open spec fn alpha_container_spec(a: int) -> Seq<char> {
    if a == 1 {
        "webm"@
    } else if a == 2 {
        "mov"@
    } else {
        "mkv"@
    }
}

/// The settings saved for the form's choices. `detected` is the ffmpeg
/// found next to the program (`ffmpeg` when none was), `old` the path saved
/// before, kept when none was found.
pub open spec fn form_settings(
    vendor: i32,
    codec: i32,
    rate: i32,
    kbps: Seq<char>,
    container: i32,
    alpha: i32,
    detected: Seq<char>,
    old: Seq<char>,
) -> ConfigView {
    let a = choice(alpha);
    let ct = choice(container);
    let codec_s = if a != 0 {
        alpha_codec_spec(a)
    } else {
        codec_for_spec(choice(vendor), choice(codec))
    };
    ConfigView {
        ffmpeg_path: if detected == "ffmpeg"@ {
            old
        } else {
            detected
        },
        codec: codec_s,
        preset: preset_for_spec(codec_s),
        crf: 18,
        bitrate: if a == 0 && choice(rate) == 1 {
            (kbps_value(kbps) * 1000) as i32
        } else {
            0
        },
        rate_mode: if a == 0 && choice(rate) == 1 {
            "vbr"@
        } else {
            "crf"@
        },
        extra: ""@,
        container: if a != 0 {
            alpha_container_spec(a)
        } else {
            container_str_spec(ct)
        },
        container_path: ""@,
        alpha_format: alpha_str_spec(a),
        debug: false,
        delete_avi: !(a == 0 && ct == 2),
        merge_audio: !(a == 0 && ct == 2),
    }
}

/// The settings to save for the form's choices (see `form_settings`).
pub fn settings_from_form(
    vendor: i32,
    codec: i32,
    rate: i32,
    kbps: &str,
    container: i32,
    alpha: i32,
    detected: &str,
    old: &str,
) -> (r: Config)
    ensures
        r@ == form_settings(vendor, codec, rate, kbps@, container, alpha, detected@, old@),
{
    let vendor: usize = if vendor > 0 { vendor as usize } else { 0 };
    let codec: usize = if codec > 0 { codec as usize } else { 0 };
    let rate: usize = if rate > 0 { rate as usize } else { 0 };
    let container: usize = if container > 0 { container as usize } else { 0 };
    let alpha: usize = if alpha > 0 { alpha as usize } else { 0 };
    let kv = chars_of(kbps);
    let kt = trimmed(kv.as_slice());
    let k: i32 = match parse_int(kt.as_slice()) {
        Some(v) => v,
        None => 8000,
    };
    let k: i32 = if k < 1 {
        1
    } else if k > 400000 {
        400000
    } else {
        k
    };
    let codec_s: &'static str = if alpha != 0 {
        if alpha == 1 {
            "libvpx-vp9"
        } else if alpha == 2 {
            "prores_ks"
        } else {
            "ffv1"
        }
    } else {
        codec_for(vendor, codec)
    };
    let out_container: &'static str = if alpha != 0 {
        if alpha == 1 {
            "webm"
        } else if alpha == 2 {
            "mov"
        } else {
            "mkv"
        }
    } else {
        container_str(container)
    };
    let rate_mode = if alpha == 0 && rate == 1 {
        "vbr"
    } else {
        "crf"
    };
    let d = owned(detected);
    let ffmpeg_path = if text_is(&d, "ffmpeg") {
        owned(old)
    } else {
        d
    };
    proof {
        reveal_strlit("");
    }
    let r = Config {
        ffmpeg_path,
        codec: owned(codec_s),
        preset: owned(preset_for(codec_s)),
        crf: 18,
        bitrate: if alpha == 0 && rate == 1 {
            k * 1000
        } else {
            0
        },
        rate_mode: owned(rate_mode),
        extra: String::new(),
        container: owned(out_container),
        container_path: String::new(),
        alpha_format: owned(alpha_str(alpha)),
        debug: false,
        delete_avi: !(alpha == 0 && container == 2),
        merge_audio: !(alpha == 0 && container == 2),
    };
    assert(r.extra@ =~= ""@);
    assert(r.container_path@ =~= ""@);
    r
}

// ---------------------------------------------------------------------------
// Paths
// ---------------------------------------------------------------------------

/// The name of the settings file.
pub open spec fn config_name() -> Seq<char> {
    "FFmpegEncoder.ini"@
}

/// The settings file in the program's folder.
pub fn config_file(dir: &str) -> (r: String)
    ensures
        r@ == joined(dir@, config_name()),
{
    join(dir, "FFmpegEncoder.ini")
}

/// Where the configuration program looks for ffmpeg in its folder, in
/// order.
pub open spec fn program_ffmpeg_candidates(dir: Seq<char>) -> Seq<Seq<char>> {
    seq![joined(dir, "ffmpeg.exe"@), joined(joined(dir, "bin"@), "ffmpeg.exe"@)]
}

pub fn program_ffmpeg_paths(dir: &str) -> (r: Vec<String>)
    ensures
        views(r@) == program_ffmpeg_candidates(dir@),
{
    let a = join(dir, "ffmpeg.exe");
    let b = join(dir, "bin");
    let b = join(b.as_str(), "ffmpeg.exe");
    let r = vec![a, b];
    assert(views(r@) =~= program_ffmpeg_candidates(dir@));
    r
}

/// The compact form of a path shown in the footer: `…\folder\file`, or
/// `…\file` without a folder name, or the path itself when it names no
/// file.
pub open spec fn shortened(p: Seq<char>) -> Seq<char> {
    match file_name(p) {
        None => p,
        Some(f) => match parent_name(p) {
            None => "…\\"@ + f,
            Some(d) => "…\\"@ + d + "\\"@ + f,
        },
    }
}

/// The compact path shown in the form's footer (see `shortened`).
pub fn shorten_path(path: &str) -> (r: String)
    ensures
        r@ == shortened(path@),
{
    let p = chars_of(path);
    let (start, name) = split_file_name(p.as_slice());
    match name {
        None => owned(path),
        Some(f) => {
            let d = parent_text(p.as_slice(), start);
            let (_, dn) = split_file_name(d.as_slice());
            let mut r = owned("…\\");
            match &dn {
                Some(n) => {
                    append_text(&mut r, string_of(n.as_slice()).as_str());
                    push_char(&mut r, '\\');
                },
                None => {},
            }
            append_text(&mut r, string_of(f.as_slice()).as_str());
            proof {
                reveal_strlit("…\\");
                reveal_strlit("\\");
                if dn is Some {
                    assert(r@ =~= "…\\"@ + dn->0@ + "\\"@ + f@);
                }
            }
            r
        },
    }
}

/// `p` matches `s` from position `i + k` on, character by character.
spec fn matches_from(s: Seq<char>, p: Seq<char>, i: int, k: nat) -> bool
    decreases p.len() - k,
{
    if k >= p.len() {
        true
    } else {
        s[i + k] == p[k as int] && matches_from(s, p, i, k + 1)
    }
}

/// `p` occurs in `s` at `i` or later.
spec fn found_from(s: Seq<char>, p: Seq<char>, i: nat) -> bool
    decreases s.len() - i,
{
    if i + p.len() > s.len() {
        false
    } else {
        matches_from(s, p, i as int, 0) || found_from(s, p, i + 1)
    }
}

proof fn lemma_matches_from(s: Seq<char>, p: Seq<char>, i: int, k: nat)
    requires
        occurs_at(s, p, i),
        k <= p.len(),
    ensures
        matches_from(s, p, i, k),
    decreases p.len() - k,
{
    if k < p.len() {
        assert(s.subrange(i, i + p.len())[k as int] == s[i + k]);
        lemma_matches_from(s, p, i, k + 1);
    }
}

proof fn lemma_found_from(s: Seq<char>, p: Seq<char>, i: int, j: nat)
    requires
        occurs_at(s, p, i),
        j <= i,
    ensures
        found_from(s, p, j),
    decreases i - j,
{
    if j == i {
        lemma_matches_from(s, p, i, 0);
    } else {
        lemma_found_from(s, p, i, j + 1);
    }
}

proof fn lemma_contains_found(s: Seq<char>, p: Seq<char>)
    ensures
        contains(s, p) ==> found_from(s, p, 0),
{
    if contains(s, p) {
        let i = choose|i: int| occurs_at(s, p, i);
        lemma_found_from(s, p, i, 0);
    }
}

proof fn lemma_matches_occurs(s: Seq<char>, p: Seq<char>, i: int, k: nat)
    requires
        0 <= i,
        i + p.len() <= s.len(),
        k <= p.len(),
        matches_from(s, p, i, k),
    ensures
        forall|j: int| k <= j < p.len() ==> s[i + j] == #[trigger] p[j],
    decreases p.len() - k,
{
    if k < p.len() {
        lemma_matches_occurs(s, p, i, k + 1);
    }
}

proof fn lemma_found_occurs(s: Seq<char>, p: Seq<char>, j: nat)
    requires
        found_from(s, p, j),
    ensures
        contains(s, p),
    decreases s.len() - j,
{
    if matches_from(s, p, j as int, 0) {
        lemma_matches_occurs(s, p, j as int, 0);
        assert(s.subrange(j as int, j as int + p.len()) =~= p);
        assert(occurs_at(s, p, j as int));
    } else {
        lemma_found_occurs(s, p, j + 1);
    }
}

/// `contains` decided character by character.
proof fn lemma_contains_iff(s: Seq<char>, p: Seq<char>)
    ensures
        contains(s, p) == found_from(s, p, 0),
{
    lemma_contains_found(s, p);
    if found_from(s, p, 0) {
        lemma_found_occurs(s, p, 0);
    }
}

/// `starts_with` decided character by character.
proof fn lemma_starts_iff(s: Seq<char>, p: Seq<char>)
    ensures
        starts_with(s, p) == (p.len() <= s.len() && matches_from(s, p, 0, 0)),
{
    if p.len() <= s.len() {
        if starts_with(s, p) {
            assert(s.subrange(0, p.len() as int) =~= s.take(p.len() as int));
            lemma_matches_from(s, p, 0, 0);
        }
        if matches_from(s, p, 0, 0) {
            lemma_matches_occurs(s, p, 0, 0);
            assert(s.take(p.len() as int) =~= p);
        }
    }
}

/// What the vendor and codec choices read from a codec name.
proof fn lemma_name_choices(s: Seq<char>)
    ensures
        vendor_of_spec(s) == (if starts_with(s, "auto"@) {
            0int
        } else if found_from(s, "nvenc"@, 0) {
            1
        } else if found_from(s, "qsv"@, 0) {
            2
        } else if found_from(s, "amf"@, 0) {
            3
        } else {
            4
        }),
        codec_of_spec(s) == (if found_from(s, "265"@, 0) || found_from(s, "hevc"@, 0) {
            1int
        } else if found_from(s, "av1"@, 0) || found_from(s, "aom"@, 0) {
            2
        } else {
            0
        }),
        starts_with(s, "auto"@) == ("auto"@.len() <= s.len() && matches_from(s, "auto"@, 0, 0)),
{
    lemma_contains_iff(s, "nvenc"@);
    lemma_contains_iff(s, "qsv"@);
    lemma_contains_iff(s, "amf"@);
    lemma_contains_iff(s, "265"@);
    lemma_contains_iff(s, "hevc"@);
    lemma_contains_iff(s, "av1"@);
    lemma_contains_iff(s, "aom"@);
    lemma_starts_iff(s, "auto"@);
}

/// The vendor and codec choices read back from the codec each pair of
/// choices saves.
proof fn lemma_codec_choices_read_back(vendor: int, codec: int)
    requires
        0 <= vendor <= 4,
        0 <= codec <= 2,
    ensures
        vendor_of_spec(codec_for_spec(vendor, codec)) == vendor,
        codec_of_spec(codec_for_spec(vendor, codec)) == codec,
{
    reveal_strlit("auto");
    reveal_strlit("nvenc");
    reveal_strlit("qsv");
    reveal_strlit("amf");
    reveal_strlit("265");
    reveal_strlit("hevc");
    reveal_strlit("av1");
    reveal_strlit("aom");
    reveal_strlit("auto265");
    reveal_strlit("autoav1");
    reveal_strlit("h264_nvenc");
    reveal_strlit("hevc_nvenc");
    reveal_strlit("av1_nvenc");
    reveal_strlit("h264_qsv");
    reveal_strlit("hevc_qsv");
    reveal_strlit("av1_qsv");
    reveal_strlit("h264_amf");
    reveal_strlit("hevc_amf");
    reveal_strlit("av1_amf");
    reveal_strlit("libx264");
    reveal_strlit("libx265");
    reveal_strlit("libaom-av1");
    reveal_with_fuel(found_from, 12);
    reveal_with_fuel(matches_from, 6);
    let s = codec_for_spec(vendor, codec);
    lemma_name_choices(s);
}

/// The rate choice the form shows for saved settings.
pub open spec fn rate_choice(c: ConfigView) -> int {
    if c.rate_mode == "cbr"@ || c.bitrate > 0 {
        1
    } else {
        0
    }
}

/// What the form saves it shows again when it is next opened: the
/// transparency choice always; without transparency also the vendor and
/// codec choices, the container choice, the rate choice and the bit rate
/// field (the number saved, or 8000 for quality first). (A transparent
/// output saves its own encoder and container, so those choices are not
/// kept.)
pub proof fn law_form_choices_shown_again(
    vendor: i32,
    codec: i32,
    rate: i32,
    kbps: Seq<char>,
    container: i32,
    alpha: i32,
    detected: Seq<char>,
    old: Seq<char>,
)
    requires
        0 <= vendor <= 4,
        0 <= codec <= 2,
        0 <= rate <= 1,
        0 <= container <= 2,
        0 <= alpha <= 3,
    ensures
        ({
            let c = form_settings(vendor, codec, rate, kbps, container, alpha, detected, old);
            &&& alpha_index_spec(c.alpha_format) == alpha
            &&& alpha == 0 ==> {
                &&& vendor_of_spec(c.codec) == vendor
                &&& codec_of_spec(c.codec) == codec
                &&& container_of_spec(c.container) == container
                &&& rate_choice(c) == rate
                &&& kbps_text(c.bitrate) == (if rate == 1 {
                    dec_int(kbps_value(kbps))
                } else {
                    "8000"@
                })
            }
        }),
{
    reveal_strlit("");
    reveal_strlit("mp4");
    reveal_strlit("mkv");
    reveal_strlit("matroska");
    reveal_strlit("webm_vp9");
    reveal_strlit("vp9");
    reveal_strlit("mov_prores");
    reveal_strlit("prores");
    reveal_strlit("mkv_ffv1");
    reveal_strlit("ffv1");
    reveal_strlit("cbr");
    reveal_strlit("vbr");
    reveal_strlit("crf");
    let c = form_settings(vendor, codec, rate, kbps, container, alpha, detected, old);
    lemma_codec_choices_read_back(vendor as int, codec as int);
    let a = c.alpha_format;
    if alpha == 1 {
        assert(lower_seq(a) =~= "webm_vp9"@);
    } else if alpha == 2 {
        assert(lower_seq(a) =~= "mov_prores"@);
    } else if alpha == 3 {
        assert(lower_seq(a) =~= "mkv_ffv1"@);
        assert(lower_seq(a) != "webm_vp9"@) by {
            assert(lower_seq(a)[0] != "webm_vp9"@[0]);
        }
    } else {
        assert(lower_seq(a) =~= ""@);
        assert(lower_seq(a) != "vp9"@ && lower_seq(a) != "prores"@ && lower_seq(a) != "ffv1"@);
    }
    if alpha == 0 && rate == 1 {
        let k = kbps_value(kbps);
        assert(1 <= k <= 400000);
        assert((k * 1000) / 1000 == k) by (nonlinear_arith)
            requires
                1 <= k <= 400000,
        ;
        assert(c.bitrate == k * 1000);
    }
    if alpha == 0 && rate == 0 {
        assert(c.rate_mode =~= "crf"@);
        assert(c.rate_mode != "cbr"@) by {
            assert(c.rate_mode[1] != "cbr"@[1]);
        }
    }
    if alpha == 0 && rate == 1 {
        assert(c.rate_mode =~= "vbr"@);
    }
    if alpha == 0 && container == 0 {
        assert(c.container =~= "mp4"@);
        assert(c.container != "mkv"@ && c.container != "matroska"@) by {
            assert(c.container[1] != "mkv"@[1]);
        }
    }
}

} // verus!

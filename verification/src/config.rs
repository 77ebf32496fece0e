//! FFmpegEncoder.ini configuration of the filter.
use vstd::prelude::*;

use crate::ini::{entry_view, ini_entries, read_entries, IniEntry};
use crate::paths::{join, joined, set_file_name, with_file_name};
use crate::text::{
    begins, chars_of, contains, flag_value, has, int_or, is_flag_on, owned, parse_i32, same, starts_with,
    string_of, views,
};

verus! {

/// The filter's settings, as read from FFmpegEncoder.ini.
#[derive(Clone, Debug)]
pub struct Config {
    pub ffmpeg_path: String,
    pub codec: String,
    pub preset: String,
    pub crf: i32,
    pub bitrate: i32,
    // crf = quality-first, vbr = dynamic bitrate, cbr = constant bitrate.
    pub rate_mode: String,
    pub extra: String,
    // Output media-type tuning (mainly for AVI Mux compatibility).
    pub out_lsample: i32,
    pub out_cbextra: i32,
    pub out_bisizeimage: i32,
    pub out_bitrate: i32,
    pub out_fourcc: String,
    pub out_rcsource_zero: bool,
    pub debug: bool,
    // Extra container output (dual-write): mp4 / mkv / mov / webm.
    // Empty = off. container_path empty = auto (same name as the AVI file).
    pub container: String,
    pub container_path: String,
    // Transparent output mode. Empty = off.
    pub alpha_format: String,
    // Remove the MMD-generated .avi after a successful render when the extra
    // container file exists.
    pub delete_avi: bool,
    // Copy the audio track from the MMD .avi into the extra container file.
    pub merge_audio: bool,
    // Keep a video stream in the intermediate AVI.
    pub write_avi_video: bool,
}

/// The settings as mathematical values.
pub struct ConfigView {
    pub ffmpeg_path: Seq<char>,
    pub codec: Seq<char>,
    pub preset: Seq<char>,
    pub crf: i32,
    pub bitrate: i32,
    pub rate_mode: Seq<char>,
    pub extra: Seq<char>,
    pub out_lsample: i32,
    pub out_cbextra: i32,
    pub out_bisizeimage: i32,
    pub out_bitrate: i32,
    pub out_fourcc: Seq<char>,
    pub out_rcsource_zero: bool,
    pub debug: bool,
    pub container: Seq<char>,
    pub container_path: Seq<char>,
    pub alpha_format: Seq<char>,
    pub delete_avi: bool,
    pub merge_audio: bool,
    pub write_avi_video: bool,
}

impl View for Config {
    type V = ConfigView;

    open spec fn view(&self) -> ConfigView {
        ConfigView {
            ffmpeg_path: self.ffmpeg_path@,
            codec: self.codec@,
            preset: self.preset@,
            crf: self.crf,
            bitrate: self.bitrate,
            rate_mode: self.rate_mode@,
            extra: self.extra@,
            out_lsample: self.out_lsample,
            out_cbextra: self.out_cbextra,
            out_bisizeimage: self.out_bisizeimage,
            out_bitrate: self.out_bitrate,
            out_fourcc: self.out_fourcc@,
            out_rcsource_zero: self.out_rcsource_zero,
            debug: self.debug,
            container: self.container@,
            container_path: self.container_path@,
            alpha_format: self.alpha_format@,
            delete_avi: self.delete_avi,
            merge_audio: self.merge_audio,
            write_avi_video: self.write_avi_video,
        }
    }
}

impl Config {
    /// A copy with the same settings.
    pub fn duplicate(&self) -> (r: Config)
        ensures
            r@ == self@,
    {
        Config {
            ffmpeg_path: self.ffmpeg_path.clone(),
            codec: self.codec.clone(),
            preset: self.preset.clone(),
            crf: self.crf,
            bitrate: self.bitrate,
            rate_mode: self.rate_mode.clone(),
            extra: self.extra.clone(),
            out_lsample: self.out_lsample,
            out_cbextra: self.out_cbextra,
            out_bisizeimage: self.out_bisizeimage,
            out_bitrate: self.out_bitrate,
            out_fourcc: self.out_fourcc.clone(),
            out_rcsource_zero: self.out_rcsource_zero,
            debug: self.debug,
            container: self.container.clone(),
            container_path: self.container_path.clone(),
            alpha_format: self.alpha_format.clone(),
            delete_avi: self.delete_avi,
            merge_audio: self.merge_audio,
            write_avi_video: self.write_avi_video,
        }
    }
}

/// Whether `s` holds the characters of `t`.
pub fn text_is(s: &String, t: &str) -> (r: bool)
    ensures
        r == (s@ == t@),
{
    let v = chars_of(s.as_str());
    same(v.as_slice(), t)
}

/// Whether `p` occurs in `s`.
pub fn text_has(s: &String, p: &str) -> (r: bool)
    ensures
        r == contains(s@, p@),
{
    let v = chars_of(s.as_str());
    has(v.as_slice(), p)
}

/// Whether `s` begins with `p`.
pub fn text_begins(s: &String, p: &str) -> (r: bool)
    ensures
        r == starts_with(s@, p@),
{
    let v = chars_of(s.as_str());
    begins(v.as_slice(), p)
}


/// The settings used when the file does not set them.
pub open spec fn default_settings() -> ConfigView {
    ConfigView {
        ffmpeg_path: "ffmpeg"@,
        codec: "libx264"@,
        preset: "veryfast"@,
        crf: 18,
        bitrate: 0,
        rate_mode: "crf"@,
        extra: seq![],
        out_lsample: 0,
        out_cbextra: 0,
        out_bisizeimage: 0,
        out_bitrate: 0,
        out_fourcc: seq![],
        out_rcsource_zero: false,
        debug: false,
        container: seq![],
        container_path: seq![],
        alpha_format: seq![],
        delete_avi: true,
        merge_audio: true,
        write_avi_video: false,
    }
}

/// The number a setting holds, or `default`.
pub open spec fn number_or(v: Seq<char>, default: i32) -> i32 {
    match parse_i32(v) {
        Some(x) => x,
        None => default,
    }
}

/// One setting of the file applied to the settings read so far.
pub open spec fn apply_setting(c: ConfigView, e: (Seq<char>, Seq<char>, Seq<char>)) -> ConfigView {
    let (s, k, v) = e;
    if s == "ffmpeg"@ {
        if k == "path"@ {
            ConfigView { ffmpeg_path: v, ..c }
        } else if k == "debug"@ {
            ConfigView { debug: flag_value(v), ..c }
        } else {
            c
        }
    } else if s == "video"@ {
        if k == "codec"@ {
            ConfigView { codec: v, ..c }
        } else if k == "preset"@ {
            ConfigView { preset: v, ..c }
        } else if k == "crf"@ {
            ConfigView { crf: number_or(v, 18), ..c }
        } else if k == "bitrate"@ {
            ConfigView { bitrate: number_or(v, 0), ..c }
        } else if k == "rate_mode"@ {
            ConfigView { rate_mode: v, ..c }
        } else if k == "extra"@ {
            ConfigView { extra: v, ..c }
        } else if k == "out_lsample"@ {
            ConfigView { out_lsample: number_or(v, 0), ..c }
        } else if k == "out_cbextra"@ {
            ConfigView { out_cbextra: number_or(v, 0), ..c }
        } else if k == "out_bisizeimage"@ {
            ConfigView { out_bisizeimage: number_or(v, 0), ..c }
        } else if k == "out_bitrate"@ {
            ConfigView { out_bitrate: number_or(v, 0), ..c }
        } else if k == "out_fourcc"@ {
            ConfigView { out_fourcc: v, ..c }
        } else if k == "out_rcsource_zero"@ {
            ConfigView { out_rcsource_zero: flag_value(v), ..c }
        } else if k == "container"@ {
            ConfigView { container: v, ..c }
        } else if k == "container_path"@ {
            ConfigView { container_path: v, ..c }
        } else if k == "alpha_format"@ {
            ConfigView { alpha_format: v, ..c }
        } else if k == "delete_avi"@ {
            ConfigView { delete_avi: flag_value(v), ..c }
        } else if k == "merge_audio"@ {
            ConfigView { merge_audio: flag_value(v), ..c }
        } else {
            c
        }
    } else {
        c
    }
}

pub open spec fn apply_settings(c: ConfigView, es: Seq<(Seq<char>, Seq<char>, Seq<char>)>) -> ConfigView
    decreases es.len(),
{
    if es.len() == 0 {
        c
    } else {
        apply_setting(apply_settings(c, es.drop_last()), es.last())
    }
}

/// A file without a rate mode (no `rate_mode` key, or an empty one) is an
/// old file: with a bitrate it was a variable (average) bitrate
/// configuration, else a quality-first (CRF) one.
pub open spec fn with_rate_mode(c: ConfigView) -> ConfigView {
    if c.rate_mode.len() == 0 {
        ConfigView { rate_mode: if c.bitrate > 0 { "vbr"@ } else { "crf"@ }, ..c }
    } else {
        c
    }
}

/// The settings read before any line of the file: the defaults, with no
/// rate mode yet.
pub open spec fn unread_settings() -> ConfigView {
    ConfigView { rate_mode: seq![], ..default_settings() }
}

/// The settings a file holds.
pub open spec fn settings_of(text: Seq<char>) -> ConfigView {
    with_rate_mode(apply_settings(unread_settings(), ini_entries(text)))
}

/// No entry sets `rate_mode` in the `[video]` section.
pub open spec fn no_rate_mode_entry(es: Seq<(Seq<char>, Seq<char>, Seq<char>)>) -> bool {
    forall|i: int| 0 <= i < es.len() ==> !(#[trigger] es[i].0 == "video"@ && es[i].1 == "rate_mode"@)
}

proof fn lemma_rate_mode_untouched(c: ConfigView, es: Seq<(Seq<char>, Seq<char>, Seq<char>)>)
    requires
        no_rate_mode_entry(es),
    ensures
        apply_settings(c, es).rate_mode == c.rate_mode,
    decreases es.len(),
{
    if es.len() > 0 {
        assert(no_rate_mode_entry(es.drop_last())) by {
            assert forall|i: int| 0 <= i < es.drop_last().len() implies !(#[trigger] es.drop_last()[i].0
                == "video"@ && es.drop_last()[i].1 == "rate_mode"@) by {
                assert(es.drop_last()[i] == es[i]);
            }
        }
        lemma_rate_mode_untouched(c, es.drop_last());
        assert(es.last() == es[es.len() - 1]);
    }
}

/// A settings file whose `[video]` section has no `rate_mode` line is an
/// old one: it reads as a variable bitrate configuration when it sets a
/// positive bitrate, and as a quality-first (CRF) one otherwise.
pub proof fn law_old_files_keep_their_rate_mode(text: Seq<char>)
    requires
        no_rate_mode_entry(ini_entries(text)),
    ensures
        settings_of(text).rate_mode == (if settings_of(text).bitrate > 0 {
            "vbr"@
        } else {
            "crf"@
        }),
{
    lemma_rate_mode_untouched(unread_settings(), ini_entries(text));
}

impl Config {
    /// The settings used when no file is found.
    pub fn defaults() -> (r: Config)
        ensures
            r@ == default_settings(),
    {
        Config {
            ffmpeg_path: owned("ffmpeg"),
            codec: owned("libx264"),
            preset: owned("veryfast"),
            crf: 18,
            bitrate: 0,
            rate_mode: owned("crf"),
            extra: String::new(),
            out_lsample: 0,
            out_cbextra: 0,
            out_bisizeimage: 0,
            out_bitrate: 0,
            out_fourcc: String::new(),
            out_rcsource_zero: false,
            debug: false,
            container: String::new(),
            container_path: String::new(),
            alpha_format: String::new(),
            delete_avi: true,
            merge_audio: true,
            write_avi_video: false,
        }
    }

    fn apply(&mut self, e: &IniEntry)
        ensures
            final(self)@ == apply_setting(old(self)@, entry_view(*e)),
    {
        let s = e.section.as_slice();
        let k = e.key.as_slice();
        let v = e.value.as_slice();
        if same(s, "ffmpeg") {
            if same(k, "path") {
                self.ffmpeg_path = string_of(v);
            } else if same(k, "debug") {
                self.debug = is_flag_on(v);
            }
        } else if same(s, "video") {
            if same(k, "codec") {
                self.codec = string_of(v);
            } else if same(k, "preset") {
                self.preset = string_of(v);
            } else if same(k, "crf") {
                self.crf = int_or(v, 18);
            } else if same(k, "bitrate") {
                self.bitrate = int_or(v, 0);
            } else if same(k, "rate_mode") {
                self.rate_mode = string_of(v);
            } else if same(k, "extra") {
                self.extra = string_of(v);
            } else if same(k, "out_lsample") {
                self.out_lsample = int_or(v, 0);
            } else if same(k, "out_cbextra") {
                self.out_cbextra = int_or(v, 0);
            } else if same(k, "out_bisizeimage") {
                self.out_bisizeimage = int_or(v, 0);
            } else if same(k, "out_bitrate") {
                self.out_bitrate = int_or(v, 0);
            } else if same(k, "out_fourcc") {
                self.out_fourcc = string_of(v);
            } else if same(k, "out_rcsource_zero") {
                self.out_rcsource_zero = is_flag_on(v);
            } else if same(k, "container") {
                self.container = string_of(v);
            } else if same(k, "container_path") {
                self.container_path = string_of(v);
            } else if same(k, "alpha_format") {
                self.alpha_format = string_of(v);
            } else if same(k, "delete_avi") {
                self.delete_avi = is_flag_on(v);
            } else if same(k, "merge_audio") {
                self.merge_audio = is_flag_on(v);
            }
        }
    }
}

/// The settings that the text of FFmpegEncoder.ini holds.
pub fn parse_config(text: &str) -> (r: Config)
    ensures
        r@ == settings_of(text@),
{
    let es = read_entries(text);
    let mut cfg = Config::defaults();
    cfg.rate_mode = String::new();
    assert(cfg@ == unread_settings());
    let mut i: usize = 0;
    while i < es.len()
        invariant
            i <= es.len(),
            cfg@ == apply_settings(unread_settings(), crate::ini::entry_views(es@).take(i as int)),
        decreases es.len() - i,
    {
        let ghost ev = crate::ini::entry_views(es@);
        assert(ev.take(i + 1).drop_last() =~= ev.take(i as int));
        cfg.apply(&es[i]);
        i = i + 1;
    }
    assert(crate::ini::entry_views(es@).take(i as int) =~= crate::ini::entry_views(es@));
    // An old file without a rate mode: variable bitrate when a bitrate is
    // set, quality first otherwise.
    if cfg.rate_mode.as_str().is_empty() {
        cfg.rate_mode = if cfg.bitrate > 0 { owned("vbr") } else { owned("crf") };
    }
    cfg
}


/// The first candidate path found to be a file.
pub open spec fn first_file(cands: Seq<(Seq<char>, bool)>) -> Option<Seq<char>>
    decreases cands.len(),
{
    if cands.len() == 0 {
        None
    } else if cands[0].1 {
        Some(cands[0].0)
    } else {
        first_file(cands.drop_first())
    }
}

pub open spec fn candidate_views(c: Seq<(String, bool)>) -> Seq<(Seq<char>, bool)> {
    c.map_values(|p: (String, bool)| (p.0@, p.1))
}

/// The first of `candidates` (a path and whether it is a file) that is a
/// file.
pub fn first_existing(candidates: &Vec<(String, bool)>) -> (r: Option<String>)
    ensures
        match r {
            Some(p) => first_file(candidate_views(candidates@)) == Some(p@),
            None => first_file(candidate_views(candidates@)) is None,
        },
{
    let ghost cv = candidate_views(candidates@);
    let mut i: usize = 0;
    assert(cv.skip(0) =~= cv);
    while i < candidates.len()
        invariant
            i <= candidates.len(),
            cv == candidate_views(candidates@),
            first_file(cv) == first_file(cv.skip(i as int)),
        decreases candidates.len() - i,
    {
        assert(cv.skip(i as int).drop_first() =~= cv.skip(i + 1));
        assert(cv.skip(i as int)[0] == (candidates@[i as int].0@, candidates@[i as int].1));
        if candidates[i].1 {
            return Some(candidates[i].0.clone());
        }
        i = i + 1;
    }
    assert(cv.skip(i as int) =~= Seq::<(Seq<char>, bool)>::empty());
    None
}

/// The ffmpeg to run: the configured one if it is the bare `ffmpeg` (found
/// on PATH) or still exists; else the first existing copy next to the filter
/// (`candidates`, each with whether it is a file); else `ffmpeg` on PATH.
pub open spec fn ffmpeg_path_choice(
    configured: Seq<char>,
    configured_is_file: bool,
    cands: Seq<(Seq<char>, bool)>,
) -> Seq<char> {
    if configured == "ffmpeg"@ || configured_is_file {
        configured
    } else {
        match first_file(cands) {
            Some(p) => p,
            None => "ffmpeg"@,
        }
    }
}

/// Paths to look at, each paired with whether it is a file in `files`.
pub open spec fn checked_candidates(paths: Seq<Seq<char>>, files: Set<Seq<char>>) -> Seq<(Seq<char>, bool)> {
    paths.map_values(|p: Seq<char>| (p, files.contains(p)))
}

proof fn lemma_first_file_is_file(paths: Seq<Seq<char>>, files: Set<Seq<char>>)
    ensures
        first_file(checked_candidates(paths, files)) matches Some(p) ==> files.contains(p),
    decreases paths.len(),
{
    if paths.len() > 0 {
        assert(checked_candidates(paths, files).drop_first() =~= checked_candidates(paths.drop_first(), files));
        lemma_first_file_is_file(paths.drop_first(), files);
    }
}

/// Resolving the ffmpeg path settles it: while the files on disk stay the
/// same, the path chosen is the bare `ffmpeg` (found on PATH) or a file, and
/// resolving again with it as the configured path gives it back.
pub proof fn law_resolved_ffmpeg_path_is_stable(
    configured: Seq<char>,
    paths: Seq<Seq<char>>,
    files: Set<Seq<char>>,
)
    ensures
        ({
            let cands = checked_candidates(paths, files);
            let r = ffmpeg_path_choice(configured, files.contains(configured), cands);
            &&& r == "ffmpeg"@ || files.contains(r)
            &&& ffmpeg_path_choice(r, files.contains(r), cands) == r
        }),
{
    lemma_first_file_is_file(paths, files);
}

/// Make sure the configured ffmpeg path still exists. If the app was
/// uninstalled/moved, fall back to the filter's own folder or to PATH.
pub fn resolve_ffmpeg_path(cfg: &Config, configured_is_file: bool, candidates: &Vec<(String, bool)>) -> (r: String)
    ensures
        r@ == ffmpeg_path_choice(cfg.ffmpeg_path@, configured_is_file, candidate_views(candidates@)),
{
    if text_is(&cfg.ffmpeg_path, "ffmpeg") || configured_is_file {
        return cfg.ffmpeg_path.clone();
    }
    match first_existing(candidates) {
        Some(p) => p,
        None => owned("ffmpeg"),
    }
}

/// Where the filter looks for ffmpeg in its own folder, in order.
pub open spec fn filter_ffmpeg_candidates(dir: Seq<char>) -> Seq<Seq<char>> {
    seq![joined(joined(dir, "bin"@), "ffmpeg.exe"@), joined(dir, "ffmpeg.exe"@)]
}

pub fn filter_ffmpeg_paths(dir: &str) -> (r: Vec<String>)
    ensures
        views(r@) == filter_ffmpeg_candidates(dir@),
{
    let a = join(dir, "bin");
    let a = join(a.as_str(), "ffmpeg.exe");
    let b = join(dir, "ffmpeg.exe");
    let r = vec![a, b];
    assert(views(r@) =~= filter_ffmpeg_candidates(dir@));
    r
}

/// Where the filter looks for FFmpegEncoder.ini, in order: next to the
/// filter DLL (the install folder), then next to the host program
/// (typically the MMD folder).
pub open spec fn ini_candidates_spec(dll_dir: Option<Seq<char>>, exe_path: Option<Seq<char>>) -> Seq<Seq<char>> {
    (match dll_dir {
        Some(d) => seq![joined(d, "FFmpegEncoder.ini"@)],
        None => seq![],
    }) + (match exe_path {
        Some(e) => seq![with_file_name(e, "FFmpegEncoder.ini"@)],
        None => seq![],
    })
}

pub fn ini_candidates(dll_dir: Option<&str>, exe_path: Option<&str>) -> (r: Vec<String>)
    ensures
        views(r@) == ini_candidates_spec(
            match dll_dir {
                Some(d) => Some(d@),
                None => None,
            },
            match exe_path {
                Some(e) => Some(e@),
                None => None,
            },
        ),
{
    let mut v: Vec<String> = Vec::new();
    if let Some(d) = dll_dir {
        v.push(join(d, "FFmpegEncoder.ini"));
    }
    let ghost first = views(v@);
    if let Some(e) = exe_path {
        v.push(set_file_name(e, "FFmpegEncoder.ini"));
    }
    assert(views(v@) =~= ini_candidates_spec(
        match dll_dir {
            Some(d) => Some(d@),
            None => None,
        },
        match exe_path {
            Some(e) => Some(e@),
            None => None,
        },
    ));
    v
}

} // verus!



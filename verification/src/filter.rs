//! Decisions of the DirectShow filter: the extra container's file name, the
//! encoder fallbacks when `Run` starts ffmpeg, the clean-up after a render
//! and the pins' names.
use vstd::prelude::*;

use crate::config::{text_has, Config, ConfigView};
use crate::paths::{
    file_name, file_stem, find_last_dot, law_extension_replaced_in_place, lemma_last_dot_bounds, name_extension,
    folder_end, no_dot, no_sep, path_extension, set_extension, split_file_name, with_extension,
};
use crate::encoder::{alpha_mode, alpha_mode_spec, cpu_codec_for, cpu_fallback, is_gpu, push_arg};
use crate::text::{
    append_text, chars_of, contains, eq_ignore_case, lower_seq, lowercase, owned, same,
    same_ignore_case, string_of, trim, trimmed, views,
};

verus! {

// ---------------------------------------------------------------------------
// The extra container file
// ---------------------------------------------------------------------------

/// The file extension of a container setting.
pub open spec fn container_ext(container: Seq<char>) -> Seq<char> {
    let l = lower_seq(container);
    if l == "mp4"@ || l == "m4v"@ {
        "mp4"@
    } else if l == "mkv"@ || l == "matroska"@ {
        "mkv"@
    } else if l == "mov"@ {
        "mov"@
    } else if l == "webm"@ {
        "webm"@
    } else if l == "ts"@ || l == "mpegts"@ {
        "ts"@
    } else {
        "mp4"@
    }
}

/// The AVI path with the extension of the extra container (`mp4`, `mkv`,
/// `mov`, `webm` or `ts`; `mp4` for any other setting).
pub fn replace_ext(avi: &str, container: &str) -> (r: String)
    ensures
        r@ == with_extension(avi@, container_ext(container@)),
{
    let v = chars_of(container);
    let l = lowercase(v.as_slice());
    let l = l.as_slice();
    let ext = if same(l, "mp4") || same(l, "m4v") {
        "mp4"
    } else if same(l, "mkv") || same(l, "matroska") {
        "mkv"
    } else if same(l, "mov") {
        "mov"
    } else if same(l, "webm") {
        "webm"
    } else if same(l, "ts") || same(l, "mpegts") {
        "ts"
    } else {
        "mp4"
    };
    set_extension(avi, ext)
}

/// The extra container file sits beside the AVI and has its name: for an
/// AVI path that names a file, the extra file's path has the same folder,
/// the same file stem, and the container's extension.
pub proof fn law_extra_file_beside_the_avi(avi: Seq<char>, container: Seq<char>)
    requires
        file_name(avi) is Some,
    ensures
        with_extension(avi, container_ext(container)).take(folder_end(avi)) == avi.take(folder_end(avi)),
        file_name(with_extension(avi, container_ext(container))) matches Some(n) && file_stem(n)
            == file_stem(file_name(avi)->0) && name_extension(n) == Some(container_ext(container)),
{
    reveal_strlit("mp4");
    reveal_strlit("mkv");
    reveal_strlit("mov");
    reveal_strlit("webm");
    reveal_strlit("ts");
    let e = container_ext(container);
    assert(e.len() > 0 && no_dot(e) && no_sep(e));
    law_extension_replaced_in_place(avi, e);
}

// ---------------------------------------------------------------------------
// Copying the AVI's audio into the extra file
// ---------------------------------------------------------------------------

/// The extension of the merged file: that of the extra file, else `mp4`.
pub open spec fn merge_ext(extra: Seq<char>) -> Seq<char> {
    match path_extension(extra) {
        Some(e) => e,
        None => "mp4"@,
    }
}

/// The file ffmpeg writes the merged result to before it replaces the
/// extra file.
pub open spec fn merge_temp(extra: Seq<char>) -> Seq<char> {
    extra + ".merge."@ + merge_ext(extra)
}

/// The audio encoders tried, in order: WebM cannot carry AAC, so Opus and
/// then Vorbis; AAC elsewhere.
pub open spec fn merge_codecs(ext: Seq<char>) -> Seq<Seq<char>> {
    if ext == "webm"@ {
        seq!["libopus"@, "libvorbis"@]
    } else {
        seq!["aac"@]
    }
}

/// The ffmpeg arguments that copy the video of the extra file and encode
/// the AVI's first audio track (if any) into `tmp`.
pub open spec fn merge_args(extra: Seq<char>, avi: Seq<char>, codec: Seq<char>, tmp: Seq<char>) -> Seq<Seq<char>> {
    seq![
        "-y"@,
        "-hide_banner"@,
        "-loglevel"@,
        "error"@,
        "-i"@,
        extra,
        "-i"@,
        avi,
        "-map"@,
        "0:v:0"@,
        "-map"@,
        "1:a:0?"@,
        "-c:v"@,
        "copy"@,
        "-c:a"@,
        codec,
        "-b:a"@,
        "192k"@,
        "-shortest"@,
        tmp,
    ]
}

/// How to merge the audio: the temporary file, and one ffmpeg command line
/// per audio encoder, in the order they are tried.
pub struct MergePlan {
    pub temp_path: String,
    pub attempts: Vec<Vec<String>>,
}

/// The extension of the file a path names.
pub fn extension_of(path: &str) -> (r: Option<String>)
    ensures
        match r {
            Some(e) => path_extension(path@) == Some(e@),
            None => path_extension(path@) is None,
        },
{
    let p = chars_of(path);
    let (_start, name) = split_file_name(p.as_slice());
    match name {
        None => None,
        Some(name) => match find_last_dot(name.as_slice()) {
            None => None,
            Some(d) => {
                if d == 0 {
                    return None;
                }
                proof {
                    lemma_last_dot_bounds(name@);
                }
                let n = name.len();
                assert(d < n);
                let mut e: Vec<char> = Vec::new();
                let mut i = d + 1;
                while i < name.len()
                    invariant
                        d + 1 <= i <= name@.len(),
                        e@ == name@.subrange(d + 1, i as int),
                    decreases name.len() - i,
                {
                    e.push(name[i]);
                    i += 1;
                    assert(e@ =~= name@.subrange(d + 1, i as int));
                }
                assert(e@ =~= name@.skip(d + 1));
                Some(string_of(e.as_slice()))
            },
        },
    }
}

fn merge_command(extra: &str, avi: &str, codec: &str, tmp: &String) -> (r: Vec<String>)
    ensures
        views(r@) == merge_args(extra@, avi@, codec@, tmp@),
{
    let mut a: Vec<String> = Vec::new();
    push_arg(&mut a, "-y");
    push_arg(&mut a, "-hide_banner");
    push_arg(&mut a, "-loglevel");
    push_arg(&mut a, "error");
    push_arg(&mut a, "-i");
    push_arg(&mut a, extra);
    push_arg(&mut a, "-i");
    push_arg(&mut a, avi);
    push_arg(&mut a, "-map");
    push_arg(&mut a, "0:v:0");
    push_arg(&mut a, "-map");
    push_arg(&mut a, "1:a:0?");
    push_arg(&mut a, "-c:v");
    push_arg(&mut a, "copy");
    push_arg(&mut a, "-c:a");
    push_arg(&mut a, codec);
    push_arg(&mut a, "-b:a");
    push_arg(&mut a, "192k");
    push_arg(&mut a, "-shortest");
    push_arg(&mut a, tmp.as_str());
    assert(views(a@) =~= merge_args(extra@, avi@, codec@, tmp@));
    a
}

/// The plan for copying the audio track of the MMD AVI into the extra
/// container file (the video stream is copied losslessly).
pub fn merge_plan(avi_path: &str, extra_path: &str) -> (r: MergePlan)
    ensures
        r.temp_path@ == merge_temp(extra_path@),
        r.attempts@.len() == merge_codecs(merge_ext(extra_path@)).len(),
        forall|i: int|
            0 <= i < r.attempts@.len() ==> views(#[trigger] r.attempts@[i]@) == merge_args(
                extra_path@,
                avi_path@,
                merge_codecs(merge_ext(extra_path@))[i],
                merge_temp(extra_path@),
            ),
{
    let ext = match extension_of(extra_path) {
        Some(e) => e,
        None => owned("mp4"),
    };
    let mut tmp = owned(extra_path);
    append_text(&mut tmp, ".merge.");
    append_text(&mut tmp, ext.as_str());
    let ev = chars_of(ext.as_str());
    let mut attempts: Vec<Vec<String>> = Vec::new();
    if same(ev.as_slice(), "webm") {
        attempts.push(merge_command(extra_path, avi_path, "libopus", &tmp));
        attempts.push(merge_command(extra_path, avi_path, "libvorbis", &tmp));
    } else {
        attempts.push(merge_command(extra_path, avi_path, "aac", &tmp));
    }
    MergePlan { temp_path: tmp, attempts }
}

// ---------------------------------------------------------------------------
// Clean-up after a render
// ---------------------------------------------------------------------------

/// What `Stop` does with the files of a finished render.
#[derive(Clone, Copy, PartialEq, Eq, Structural, Debug)]
pub enum Cleanup {
    /// Nothing to do: the render did not finish, or wrote no extra file.
    Nothing,
    /// Copy the AVI's audio into the extra file first.
    MergeAudio,
    /// The audio merge failed: keep the AVI and report it.
    MergeFailed,
    /// Remove the AVI: the extra file holds the render.
    DeleteAvi,
    /// No extra file was produced: report it.
    MissingOutput,
    /// Keep the AVI (deleting is off).
    KeepAvi,
}

/// What follows once the extra file is complete.
pub open spec fn final_cleanup(extra_ok: bool, delete_avi: bool) -> Cleanup {
    if delete_avi && extra_ok {
        Cleanup::DeleteAvi
    } else if !extra_ok {
        Cleanup::MissingOutput
    } else {
        Cleanup::KeepAvi
    }
}

/// The first clean-up step of `Stop`: `extra_ok` tells whether the extra
/// file exists and is not empty.
pub open spec fn cleanup_spec(
    completed: bool,
    avi: Seq<char>,
    extra: Seq<char>,
    extra_ok: bool,
    c: ConfigView,
) -> Cleanup {
    if !(completed && avi.len() > 0 && extra.len() > 0) {
        Cleanup::Nothing
    } else if extra_ok && c.merge_audio {
        Cleanup::MergeAudio
    } else {
        final_cleanup(extra_ok, c.delete_avi)
    }
}

pub fn cleanup_after_render(completed: bool, avi_path: &str, extra_path: &str, extra_ok: bool, cfg: &Config) -> (r: Cleanup)
    ensures
        r == cleanup_spec(completed, avi_path@, extra_path@, extra_ok, cfg@),
{
    let a = chars_of(avi_path);
    let e = chars_of(extra_path);
    if !(completed && a.len() > 0 && e.len() > 0) {
        Cleanup::Nothing
    } else if extra_ok && cfg.merge_audio {
        Cleanup::MergeAudio
    } else if cfg.delete_avi && extra_ok {
        Cleanup::DeleteAvi
    } else if !extra_ok {
        Cleanup::MissingOutput
    } else {
        Cleanup::KeepAvi
    }
}

/// The clean-up step after the audio merge ran (which it does only when
/// the extra file was there).
pub fn cleanup_after_merge(merged: bool, cfg: &Config) -> (r: Cleanup)
    ensures
        r == (if merged {
            final_cleanup(true, cfg.delete_avi)
        } else {
            Cleanup::MergeFailed
        }),
{
    if !merged {
        Cleanup::MergeFailed
    } else if cfg.delete_avi {
        Cleanup::DeleteAvi
    } else {
        Cleanup::KeepAvi
    }
}

/// What happened during the audio merge.
#[derive(Clone, Copy, PartialEq, Eq, Structural, Debug)]
pub enum MergeEvent {
    /// The merge begins.
    Begin,
    /// The ffmpeg run of the attempt at this index ended; whether it
    /// succeeded.
    AttemptDone(usize, bool),
    /// Whether the temporary file holds data.
    TempChecked(bool),
    /// Whether the temporary file was renamed to the extra file's name.
    Renamed(bool),
}

/// What the audio merge does next.
#[derive(Clone, Copy, PartialEq, Eq, Structural, Debug)]
pub enum MergeAction {
    /// Run ffmpeg with the plan's attempt at this index.
    Run(usize),
    /// Remove the temporary file a failed attempt left, then run the
    /// attempt at this index.
    RemoveTempAndRun(usize),
    /// Remove the temporary file a failed attempt left: no attempt is left,
    /// the merge failed.
    RemoveTempAndFail,
    /// Look whether the temporary file holds data.
    CheckTemp,
    /// Remove the extra file and rename the temporary file to its name.
    ReplaceExtra,
    /// The merge is over; whether it worked.
    Done(bool),
}

/// The audio merge with `attempts` audio encoders to try: they are tried
/// in order until one succeeds, the temporary file of each failed one is
/// removed, and a merged file that holds data replaces the extra file.
pub open spec fn merge_step_spec(attempts: nat, e: MergeEvent) -> MergeAction {
    match e {
        MergeEvent::Begin => if attempts > 0 {
            MergeAction::Run(0)
        } else {
            MergeAction::Done(false)
        },
        MergeEvent::AttemptDone(i, succeeded) => if succeeded {
            MergeAction::CheckTemp
        } else if i + 1 < attempts {
            MergeAction::RemoveTempAndRun((i + 1) as usize)
        } else {
            MergeAction::RemoveTempAndFail
        },
        MergeEvent::TempChecked(has_data) => if has_data {
            MergeAction::ReplaceExtra
        } else {
            MergeAction::Done(false)
        },
        MergeEvent::Renamed(renamed) => MergeAction::Done(renamed),
    }
}

/// The next step of the audio merge (see `merge_step_spec`).
pub fn merge_step(attempts: usize, e: MergeEvent) -> (r: MergeAction)
    ensures
        r == merge_step_spec(attempts as nat, e),
{
    match e {
        MergeEvent::Begin => if attempts > 0 {
            MergeAction::Run(0)
        } else {
            MergeAction::Done(false)
        },
        MergeEvent::AttemptDone(i, succeeded) => if succeeded {
            MergeAction::CheckTemp
        } else if attempts > 0 && i < attempts - 1 {
            MergeAction::RemoveTempAndRun(i + 1)
        } else {
            MergeAction::RemoveTempAndFail
        },
        MergeEvent::TempChecked(has_data) => if has_data {
            MergeAction::ReplaceExtra
        } else {
            MergeAction::Done(false)
        },
        MergeEvent::Renamed(renamed) => MergeAction::Done(renamed),
    }
}

// ---------------------------------------------------------------------------
// Starting the encoder in `Run`
// ---------------------------------------------------------------------------

/// The settings ask for a transparent output.
pub open spec fn wants_alpha(c: ConfigView) -> bool {
    alpha_mode_spec(c.alpha_format) is Some
}

/// The settings ask for an opaque output with a GPU encoder.
pub open spec fn wants_gpu(c: ConfigView) -> bool {
    !wants_alpha(c) && is_gpu(c)
}

/// The opaque MP4 (libx264) used when the transparent encoder cannot be
/// used; an explicit extra file path gets the `mp4` extension.
pub open spec fn opaque_fallback_spec(c: ConfigView) -> ConfigView {
    ConfigView {
        alpha_format: Seq::empty(),
        container: "mp4"@,
        codec: "libx264"@,
        preset: "veryfast"@,
        container_path: if c.container_path.len() == 0 {
            c.container_path
        } else {
            with_extension(c.container_path, "mp4"@)
        },
        ..c
    }
}

/// The CPU encoder of the same family (see `cpu_fallback`).
pub open spec fn cpu_fallback_spec(c: ConfigView) -> ConfigView {
    ConfigView { codec: cpu_codec_for(c.codec), preset: "veryfast"@, ..c }
}

/// The settings of the first start: a transparent or GPU encoder whose
/// probe failed is replaced before ffmpeg is started.
pub open spec fn first_attempt_spec(c: ConfigView, probe_ok: bool) -> ConfigView {
    if wants_alpha(c) && !probe_ok {
        opaque_fallback_spec(c)
    } else if wants_gpu(c) && !probe_ok {
        cpu_fallback_spec(c)
    } else {
        c
    }
}

/// The settings of a second start after the first failed, if any.
pub open spec fn retry_spec(c: ConfigView, first: ConfigView) -> Option<ConfigView> {
    if wants_gpu(c) {
        Some(cpu_fallback_spec(c))
    } else if wants_alpha(c) && first.alpha_format.len() > 0 {
        Some(opaque_fallback_spec(c))
    } else {
        None
    }
}

/// A GPU encoder that fails its probe, or fails to start, is replaced by
/// the CPU encoder of the same family with the `veryfast` preset; a
/// transparent output that cannot be encoded becomes an opaque MP4.
pub proof fn law_failed_encoders_fall_back(c: ConfigView, first: ConfigView)
    ensures
        wants_gpu(c) ==> first_attempt_spec(c, false) == cpu_fallback_spec(c) && retry_spec(c, first) == Some(
            cpu_fallback_spec(c),
        ),
        wants_gpu(c) ==> cpu_fallback_spec(c).codec == cpu_codec_for(c.codec) && cpu_fallback_spec(c).preset
            == "veryfast"@,
        wants_alpha(c) ==> first_attempt_spec(c, false) == opaque_fallback_spec(c),
        wants_alpha(c) && first.alpha_format.len() > 0 ==> retry_spec(c, first) == Some(opaque_fallback_spec(c)),
        opaque_fallback_spec(c).codec == "libx264"@ && opaque_fallback_spec(c).container == "mp4"@
            && opaque_fallback_spec(c).alpha_format.len() == 0,
{
}

/// Whether `Run` probes the encoder before starting it: a transparent or a
/// GPU encoder may be missing from this ffmpeg build or driver.
pub fn needs_probe(cfg: &Config) -> (r: bool)
    ensures
        r == (wants_alpha(cfg@) || wants_gpu(cfg@)),
{
    let alpha = alpha_mode(cfg).is_some();
    alpha || text_has(&cfg.codec, "nvenc") || text_has(&cfg.codec, "amf") || text_has(&cfg.codec, "qsv")
}

/// Falls back from a transparent output to an opaque MP4 (libx264).
pub fn opaque_fallback(cfg: &Config) -> (r: Config)
    ensures
        r@ == opaque_fallback_spec(cfg@),
{
    let mut c = cfg.duplicate();
    c.alpha_format = String::new();
    c.container = owned("mp4");
    c.codec = owned("libx264");
    c.preset = owned("veryfast");
    let p = chars_of(cfg.container_path.as_str());
    if p.len() > 0 {
        c.container_path = set_extension(cfg.container_path.as_str(), "mp4");
    }
    proof {
        reveal_strlit("mp4");
    }
    c
}

/// The settings `Run` starts ffmpeg with, given the probe's verdict
/// (ignored when `needs_probe` is false).
pub fn first_attempt(cfg: &Config, probe_ok: bool) -> (r: Config)
    ensures
        r@ == first_attempt_spec(cfg@, probe_ok),
{
    let alpha = alpha_mode(cfg).is_some();
    if alpha && !probe_ok {
        return opaque_fallback(cfg);
    }
    let gpu = !alpha && (text_has(&cfg.codec, "nvenc") || text_has(&cfg.codec, "amf") || text_has(
        &cfg.codec,
        "qsv",
    ));
    if gpu && !probe_ok {
        cpu_fallback(cfg)
    } else {
        cfg.duplicate()
    }
}

/// The settings of a second start after starting ffmpeg with `first`
/// failed: the CPU encoder for a GPU one, an opaque MP4 for a transparent
/// output; `None` when the failure stands.
pub fn retry_attempt(cfg: &Config, first: &Config) -> (r: Option<Config>)
    ensures
        match r {
            Some(c) => retry_spec(cfg@, first@) == Some(c@),
            None => retry_spec(cfg@, first@) is None,
        },
{
    let alpha = alpha_mode(cfg).is_some();
    let gpu = !alpha && (text_has(&cfg.codec, "nvenc") || text_has(&cfg.codec, "amf") || text_has(
        &cfg.codec,
        "qsv",
    ));
    if gpu {
        Some(cpu_fallback(cfg))
    } else if alpha && chars_of(first.alpha_format.as_str()).len() > 0 {
        Some(opaque_fallback(cfg))
    } else {
        None
    }
}

/// The preset for an automatically chosen encoder.
pub open spec fn resolved_preset_spec(codec: Seq<char>) -> Seq<char> {
    if contains(codec, "nvenc"@) {
        "p4"@
    } else if contains(codec, "amf"@) {
        "balanced"@
    } else {
        "veryfast"@
    }
}

pub fn resolved_preset(codec: &String) -> (r: &'static str)
    ensures
        r@ == resolved_preset_spec(codec@),
{
    if text_has(codec, "nvenc") {
        "p4"
    } else if text_has(codec, "amf") {
        "balanced"
    } else {
        "veryfast"
    }
}

/// Whether the extra container file is on but has no path: it then takes
/// the File Writer's AVI path with the container's extension.
pub fn needs_container_path(cfg: &Config) -> (r: bool)
    ensures
        r == (cfg.container@.len() > 0 && trim(cfg.container_path@).len() == 0),
{
    let c = chars_of(cfg.container.as_str());
    let p = chars_of(cfg.container_path.as_str());
    let t = trimmed(p.as_slice());
    c.len() > 0 && t.len() == 0
}

// ---------------------------------------------------------------------------
// Pins
// ---------------------------------------------------------------------------

/// The filter's two pins.
#[derive(Clone, Copy, PartialEq, Eq, Structural, Debug)]
pub enum PinKind {
    Input,
    Output,
}

/// The pin `FindPin` returns for an id: `FFmpegIn` or `Input`, `FFmpegOut`
/// or `Output`, ASCII case ignored.
pub open spec fn pin_for_id_spec(id: Seq<char>) -> Option<PinKind> {
    if eq_ignore_case(id, "FFmpegIn"@) || eq_ignore_case(id, "Input"@) {
        Some(PinKind::Input)
    } else if eq_ignore_case(id, "FFmpegOut"@) || eq_ignore_case(id, "Output"@) {
        Some(PinKind::Output)
    } else {
        None
    }
}

pub fn pin_for_id(id: &str) -> (r: Option<PinKind>)
    ensures
        r == pin_for_id_spec(id@),
{
    let v = chars_of(id);
    let v = v.as_slice();
    if same_ignore_case(v, "FFmpegIn") || same_ignore_case(v, "Input") {
        Some(PinKind::Input)
    } else if same_ignore_case(v, "FFmpegOut") || same_ignore_case(v, "Output") {
        Some(PinKind::Output)
    } else {
        None
    }
}

/// A pin's name and id.
pub fn pin_name(kind: PinKind) -> (r: &'static str)
    ensures
        r@ == (match kind {
            PinKind::Input => "FFmpegIn"@,
            PinKind::Output => "FFmpegOut"@,
        }),
{
    match kind {
        PinKind::Input => "FFmpegIn",
        PinKind::Output => "FFmpegOut",
    }
}

} // verus!

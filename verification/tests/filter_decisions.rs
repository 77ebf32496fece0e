use mmd_ffmpeg_encoder::config::Config;
use mmd_ffmpeg_encoder::filter::{
    cleanup_after_merge, cleanup_after_render, extension_of, first_attempt, merge_plan, merge_step, needs_container_path,
    needs_probe, opaque_fallback, pin_for_id, pin_name, replace_ext, resolved_preset, retry_attempt, Cleanup,
    MergeAction, MergeEvent, PinKind,
};
use mmd_ffmpeg_encoder::form::shorten_path;
use mmd_ffmpeg_encoder::paths::{join, set_extension, set_file_name};

fn cfg() -> Config {
    let mut c = Config::defaults();
    c.ffmpeg_path = "C:\\tools\\ffmpeg.exe".to_string();
    c
}

#[test]
fn extra_file_takes_the_avi_name() {
    assert_eq!(replace_ext("C:\\out\\render.avi", "MP4"), "C:\\out\\render.mp4");
    assert_eq!(replace_ext("C:\\out\\render.avi", "matroska"), "C:\\out\\render.mkv");
    assert_eq!(replace_ext("C:/out/a.b.avi", "mpegts"), "C:/out/a.b.ts");
    assert_eq!(replace_ext("C:\\out\\render", "webm"), "C:\\out\\render.webm");
    assert_eq!(replace_ext("C:\\out\\.avi", "mov"), "C:\\out\\.avi.mov");
    assert_eq!(replace_ext("render.avi", "flv"), "render.mp4");
}

#[test]
fn paths_without_a_file_name_are_kept() {
    assert_eq!(set_extension("C:\\out\\..", "mp4"), "C:\\out\\..");
    assert_eq!(set_extension("", "mp4"), "");
    assert_eq!(set_extension("C:\\a.avi", ""), "C:\\a");
}

#[test]
fn joining_paths() {
    assert_eq!(join("C:\\dir", "x.ini"), "C:\\dir\\x.ini");
    assert_eq!(join("C:\\dir\\", "x.ini"), "C:\\dir\\x.ini");
    assert_eq!(join("C:", "x.ini"), "C:x.ini");
    assert_eq!(join("", "x.ini"), "x.ini");
    assert_eq!(set_file_name("C:\\MMD\\MikuMikuDance.exe", "FFmpegEncoder.ini"), "C:\\MMD\\FFmpegEncoder.ini");
    assert_eq!(set_file_name("MikuMikuDance.exe", "FFmpegEncoder.ini"), "FFmpegEncoder.ini");
}

#[test]
fn audio_merge_plan() {
    let p = merge_plan("C:\\r.avi", "C:\\r.mp4");
    assert_eq!(p.temp_path, "C:\\r.mp4.merge.mp4");
    assert_eq!(p.attempts.len(), 1);
    assert_eq!(
        p.attempts[0],
        vec![
            "-y", "-hide_banner", "-loglevel", "error", "-i", "C:\\r.mp4", "-i", "C:\\r.avi", "-map", "0:v:0",
            "-map", "1:a:0?", "-c:v", "copy", "-c:a", "aac", "-b:a", "192k", "-shortest", "C:\\r.mp4.merge.mp4",
        ]
    );
    let w = merge_plan("C:\\r.avi", "C:\\r.webm");
    assert_eq!(w.attempts.len(), 2);
    assert_eq!(w.attempts[0][15], "libopus");
    assert_eq!(w.attempts[1][15], "libvorbis");
    let none = merge_plan("C:\\r.avi", "C:\\r");
    assert_eq!(none.temp_path, "C:\\r.merge.mp4");
    assert_eq!(extension_of("C:\\x.y\\name"), None);
    assert_eq!(extension_of("C:\\x\\name.MKV"), Some("MKV".to_string()));
}

#[test]
fn clean_up_after_a_render() {
    let c = cfg();
    assert_eq!(cleanup_after_render(false, "a.avi", "a.mp4", true, &c), Cleanup::Nothing);
    assert_eq!(cleanup_after_render(true, "", "a.mp4", true, &c), Cleanup::Nothing);
    assert_eq!(cleanup_after_render(true, "a.avi", "a.mp4", true, &c), Cleanup::MergeAudio);
    assert_eq!(cleanup_after_render(true, "a.avi", "a.mp4", false, &c), Cleanup::MissingOutput);
    let mut no_merge = cfg();
    no_merge.merge_audio = false;
    assert_eq!(cleanup_after_render(true, "a.avi", "a.mp4", true, &no_merge), Cleanup::DeleteAvi);
    no_merge.delete_avi = false;
    assert_eq!(cleanup_after_render(true, "a.avi", "a.mp4", true, &no_merge), Cleanup::KeepAvi);
    assert_eq!(cleanup_after_merge(true, &c), Cleanup::DeleteAvi);
    assert_eq!(cleanup_after_merge(false, &c), Cleanup::MergeFailed);
    assert_eq!(cleanup_after_merge(true, &no_merge), Cleanup::KeepAvi);
}

#[test]
fn gpu_encoders_fall_back_to_the_cpu() {
    let mut c = cfg();
    c.codec = "hevc_nvenc".to_string();
    c.preset = "p4".to_string();
    assert!(needs_probe(&c));
    assert_eq!(first_attempt(&c, true).codec, "hevc_nvenc");
    let f = first_attempt(&c, false);
    assert_eq!((f.codec.as_str(), f.preset.as_str()), ("libx265", "veryfast"));
    let r = retry_attempt(&c, &c).expect("a CPU retry");
    assert_eq!(r.codec, "libx265");
    let cpu = cfg();
    assert!(!needs_probe(&cpu));
    assert!(retry_attempt(&cpu, &cpu).is_none());
}

#[test]
fn transparent_output_falls_back_to_opaque_mp4() {
    let mut c = cfg();
    c.alpha_format = "webm_vp9".to_string();
    c.container = "webm".to_string();
    c.container_path = "C:\\out\\r.webm".to_string();
    assert!(needs_probe(&c));
    let o = opaque_fallback(&c);
    assert_eq!(o.alpha_format, "");
    assert_eq!(o.container, "mp4");
    assert_eq!(o.codec, "libx264");
    assert_eq!(o.preset, "veryfast");
    assert_eq!(o.container_path, "C:\\out\\r.mp4");
    assert_eq!(first_attempt(&c, false).container_path, "C:\\out\\r.mp4");
    assert_eq!(first_attempt(&c, true).alpha_format, "webm_vp9");
    assert_eq!(retry_attempt(&c, &c).expect("opaque retry").codec, "libx264");
    // Once the opaque fallback itself failed there is nothing left to try.
    assert!(retry_attempt(&c, &o).is_none());
}

#[test]
fn presets_for_resolved_codecs() {
    assert_eq!(resolved_preset(&"h264_nvenc".to_string()), "p4");
    assert_eq!(resolved_preset(&"hevc_amf".to_string()), "balanced");
    assert_eq!(resolved_preset(&"h264_qsv".to_string()), "veryfast");
}

#[test]
fn container_path_is_filled_in_when_missing() {
    let mut c = cfg();
    assert!(!needs_container_path(&c));
    c.container = "mp4".to_string();
    c.container_path = "   ".to_string();
    assert!(needs_container_path(&c));
    c.container_path = "C:\\x.mp4".to_string();
    assert!(!needs_container_path(&c));
}

#[test]
fn pins_are_found_by_id() {
    assert_eq!(pin_for_id("ffmpegin"), Some(PinKind::Input));
    assert_eq!(pin_for_id("INPUT"), Some(PinKind::Input));
    assert_eq!(pin_for_id("FFmpegOut"), Some(PinKind::Output));
    assert_eq!(pin_for_id("output"), Some(PinKind::Output));
    assert_eq!(pin_for_id("In"), None);
    assert_eq!(pin_name(PinKind::Input), "FFmpegIn");
    assert_eq!(pin_name(PinKind::Output), "FFmpegOut");
}

#[test]
fn trailing_separators_and_dot_components() {
    assert_eq!(replace_ext("C:/a/b/", "mkv"), "C:/a/b.mkv");
    assert_eq!(replace_ext("C:\\out\\render.avi\\.\\", "mp4"), "C:\\out\\render.mp4");
    assert_eq!(replace_ext("C:render.avi", "mov"), "C:render.mov");
    assert_eq!(set_extension("C:", "mp4"), "C:");
    assert_eq!(set_extension("C:\\", "mp4"), "C:\\");
    assert_eq!(set_extension(".", "mp4"), ".");
    assert_eq!(set_extension("a\\.", "mp4"), "a.mp4");
    assert_eq!(set_file_name("C:\\MMD\\\\MikuMikuDance.exe", "x.ini"), "C:\\MMD\\x.ini");
    assert_eq!(set_file_name("C:\\MikuMikuDance.exe", "x.ini"), "C:\\x.ini");
    assert_eq!(set_file_name("C:MikuMikuDance.exe", "x.ini"), "C:x.ini");
    assert_eq!(set_file_name("C:\\MMD\\", "x.ini"), "C:\\x.ini");
    assert_eq!(set_file_name("C:\\MMD\\..", "x.ini"), "C:\\MMD\\..\\x.ini");
    assert_eq!(extension_of("C:\\x\\name.mkv\\"), Some("mkv".to_string()));
    assert_eq!(shorten_path("C:\\dir\\file.ini\\"), "…\\dir\\file.ini");
    assert_eq!(shorten_path("C:\\dir\\.\\file.ini"), "…\\dir\\file.ini");
    assert_eq!(shorten_path("C:file.ini"), "…\\file.ini");
}

#[test]
fn audio_merge_tries_each_encoder_then_replaces_the_file() {
    assert_eq!(merge_step(2, MergeEvent::Begin), MergeAction::Run(0));
    assert_eq!(merge_step(2, MergeEvent::AttemptDone(0, false)), MergeAction::RemoveTempAndRun(1));
    assert_eq!(merge_step(2, MergeEvent::AttemptDone(1, false)), MergeAction::RemoveTempAndFail);
    assert_eq!(merge_step(2, MergeEvent::AttemptDone(1, true)), MergeAction::CheckTemp);
    assert_eq!(merge_step(1, MergeEvent::AttemptDone(0, false)), MergeAction::RemoveTempAndFail);
    assert_eq!(merge_step(1, MergeEvent::TempChecked(true)), MergeAction::ReplaceExtra);
    assert_eq!(merge_step(1, MergeEvent::TempChecked(false)), MergeAction::Done(false));
    assert_eq!(merge_step(1, MergeEvent::Renamed(true)), MergeAction::Done(true));
    assert_eq!(merge_step(1, MergeEvent::Renamed(false)), MergeAction::Done(false));
    assert_eq!(merge_step(0, MergeEvent::Begin), MergeAction::Done(false));
}

#[test]
fn network_share_paths() {
    assert_eq!(replace_ext("\\\\srv\\share\\out\\r.avi", "mkv"), "\\\\srv\\share\\out\\r.mkv");
    assert_eq!(replace_ext("//srv/share/r.avi", "mov"), "//srv/share/r.mov");
    assert_eq!(set_extension("\\\\srv\\share", "mp4"), "\\\\srv\\share");
    assert_eq!(set_extension("\\\\srv\\share\\", "mp4"), "\\\\srv\\share\\");
    assert_eq!(set_extension("\\\\srv", "mp4"), "\\\\srv.mp4");
    assert_eq!(set_file_name("\\\\srv\\share\\a.exe", "x.ini"), "\\\\srv\\share\\x.ini");
    assert_eq!(set_file_name("\\\\srv\\share\\MMD\\a.exe", "x.ini"), "\\\\srv\\share\\MMD\\x.ini");
    assert_eq!(extension_of("\\\\srv\\share.mkv"), None);
    assert_eq!(shorten_path("\\\\srv\\share\\a.ini"), "…\\a.ini");
    assert_eq!(shorten_path("\\\\srv\\share\\dir\\a.ini"), "…\\dir\\a.ini");
}

#[test]
fn verbatim_and_device_paths() {
    assert_eq!(set_extension(r"\\?\UNC\srv\share", "mp4"), r"\\?\UNC\srv\share");
    assert_eq!(set_extension(r"\\?\UNC\srv\share\r.avi", "mp4"), r"\\?\UNC\srv\share\r.mp4");
    assert_eq!(set_extension(r"\\?\C:\out\r.avi", "mkv"), r"\\?\C:\out\r.mkv");
    assert_eq!(set_extension(r"\\?\C:\out\r.avi\", "mkv"), r"\\?\C:\out\r.mkv");
    assert_eq!(set_extension(r"\\?\C:\out\.", "mp4"), r"\\?\C:\out\.");
    assert_eq!(set_extension(r"\\?\C:", "mp4"), r"\\?\C:");
    assert_eq!(set_extension(r"\\?\foo", "mp4"), r"\\?\foo");
    assert_eq!(set_extension(r"\\.\COM1", "mp4"), r"\\.\COM1");
    assert_eq!(extension_of(r"\\?\C:\x/y.mkv"), Some("mkv".to_string()));
    assert_eq!(set_extension(r"\\?\C:\x/y.avi", "mp4"), r"\\?\C:\x/y.mp4");
    assert_eq!(join(r"\\?\C:\a\\b", "x.ini"), r"\\?\C:\a\b\x.ini");
    assert_eq!(join(r"\\?\C:\a", r"..\x"), r"\\?\C:\x");
    assert_eq!(join(r"\\?\C:\a\.", "x"), r"\\?\C:\a\.\x");
    assert_eq!(join(r"\\?\C:", "x"), r"\\?\C:\x");
    assert_eq!(join(r"\\?\C:\a", r"\b"), r"\\?\C:\b");
    assert_eq!(set_file_name(r"\\?\C:\MMD\a.exe", "x.ini"), r"\\?\C:\MMD\x.ini");
    assert_eq!(shorten_path(r"\\?\C:\dir\a.ini"), "…\\dir\\a.ini");
}

#[test]
fn joining_rooted_and_prefixed_names() {
    assert_eq!(join("C:\\dir", "\\x.ini"), "C:\\x.ini");
    assert_eq!(join("C:\\dir", "D:\\x"), "D:\\x");
    assert_eq!(join("dir", "/x"), "/x");
    assert_eq!(join("\\\\srv\\share\\dir", "\\x"), "\\\\srv\\share\\x");
}

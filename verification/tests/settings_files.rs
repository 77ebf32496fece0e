use mmd_ffmpeg_encoder::config::{
    filter_ffmpeg_paths, first_existing, ini_candidates, parse_config, resolve_ffmpeg_path, Config,
};
use mmd_ffmpeg_encoder::form::{
    alpha_index_of, alpha_str, codec_for, codec_of, config_file, container_of, container_str, form_state,
    preset_for, program_ffmpeg_paths, settings_from_form, shorten_path, vendor_of,
};
use mmd_ffmpeg_encoder::ui::{parse_ui_config, render_ui_config};

const INI: &str = "; comment\n[FFmpeg]\npath = C:\\ff\\ffmpeg.exe\ndebug=TRUE\n\n[Video]\nCodec=hevc_nvenc\npreset=p5\ncrf=abc\nbitrate=6000000\nrate_mode=\nextra= -g 30 \nout_fourcc=HEVC\nout_rcsource_zero=1\ncontainer=mkv\nalpha_format=\ndelete_avi=0\nwrite_avi_video=1\n# done\n";

#[test]
fn filter_reads_its_settings() {
    let c = parse_config(INI);
    assert_eq!(c.ffmpeg_path, "C:\\ff\\ffmpeg.exe");
    assert!(c.debug);
    assert_eq!(c.codec, "hevc_nvenc");
    assert_eq!(c.preset, "p5");
    assert_eq!(c.crf, 18, "a bad number keeps the default");
    assert_eq!(c.bitrate, 6_000_000);
    assert_eq!(c.rate_mode, "vbr", "an empty rate mode with a bitrate is VBR");
    assert_eq!(c.extra, "-g 30");
    assert_eq!(c.out_fourcc, "HEVC");
    assert!(c.out_rcsource_zero);
    assert_eq!(c.container, "mkv");
    assert!(!c.delete_avi);
    assert!(c.merge_audio);
}

#[test]
fn missing_file_gives_the_defaults() {
    let c = parse_config("");
    let d = Config::defaults();
    assert_eq!(c.codec, d.codec);
    assert_eq!(c.codec, "libx264");
    assert_eq!(c.rate_mode, "crf");
    assert_eq!(c.crf, 18);
}

#[test]
fn ffmpeg_path_falls_back_next_to_the_filter() {
    let mut c = Config::defaults();
    assert_eq!(resolve_ffmpeg_path(&c, false, &vec![]), "ffmpeg");
    c.ffmpeg_path = "D:\\gone\\ffmpeg.exe".to_string();
    assert_eq!(resolve_ffmpeg_path(&c, true, &vec![]), "D:\\gone\\ffmpeg.exe");
    let cands = vec![("C:\\f\\bin\\ffmpeg.exe".to_string(), false), ("C:\\f\\ffmpeg.exe".to_string(), true)];
    assert_eq!(resolve_ffmpeg_path(&c, false, &cands), "C:\\f\\ffmpeg.exe");
    assert_eq!(resolve_ffmpeg_path(&c, false, &vec![("x".to_string(), false)]), "ffmpeg");
    assert_eq!(first_existing(&cands), Some("C:\\f\\ffmpeg.exe".to_string()));
    assert_eq!(filter_ffmpeg_paths("C:\\f"), vec!["C:\\f\\bin\\ffmpeg.exe", "C:\\f\\ffmpeg.exe"]);
}

#[test]
fn settings_file_candidates() {
    assert_eq!(
        ini_candidates(Some("C:\\Program Files\\Enc"), Some("D:\\MMD\\MikuMikuDance.exe")),
        vec!["C:\\Program Files\\Enc\\FFmpegEncoder.ini", "D:\\MMD\\FFmpegEncoder.ini"]
    );
    assert_eq!(ini_candidates(None, Some("D:\\MMD\\mmd.exe")), vec!["D:\\MMD\\FFmpegEncoder.ini"]);
    assert!(ini_candidates(None, None).is_empty());
}

#[test]
fn program_reads_lower_case_choices() {
    let c = parse_ui_config(INI);
    assert_eq!(c.codec, "hevc_nvenc");
    assert_eq!(c.container, "mkv");
    let c = parse_ui_config("[video]\ncodec=HEVC_NVENC\nrate_mode=VBR\n");
    assert_eq!(c.codec, "hevc_nvenc");
    assert_eq!(c.rate_mode, "vbr");
    let d = parse_ui_config("");
    assert_eq!(d.codec, "auto");
    assert_eq!(d.container, "mp4");
}

#[test]
fn saved_settings_read_back() {
    let mut c = parse_ui_config("");
    c.ffmpeg_path = "C:\\ff\\ffmpeg.exe".to_string();
    c.codec = "h264_qsv".to_string();
    c.bitrate = 12_000_000;
    c.rate_mode = "vbr".to_string();
    c.extra = "-g 60".to_string();
    c.container = "".to_string();
    c.alpha_format = "mov_prores".to_string();
    c.debug = true;
    c.delete_avi = false;
    let text = render_ui_config(&c);
    assert!(text.starts_with("[ffmpeg]\n; ffmpeg.exe path (auto-filled on save)\npath=C:\\ff\\ffmpeg.exe\n"));
    assert!(text.contains("\ndebug=1\n"));
    assert!(text.contains("\nbitrate=12000000\n"));
    assert!(text.ends_with("delete_avi=0\nmerge_audio=1\n"));
    let back = parse_ui_config(&text);
    assert_eq!(back.ffmpeg_path, c.ffmpeg_path);
    assert_eq!(back.codec, c.codec);
    assert_eq!(back.bitrate, c.bitrate);
    assert_eq!(back.rate_mode, c.rate_mode);
    assert_eq!(back.extra, c.extra);
    assert_eq!(back.container, c.container);
    assert_eq!(back.alpha_format, c.alpha_format);
    assert_eq!((back.debug, back.delete_avi, back.merge_audio), (true, false, true));
}

#[test]
fn form_choices_map_to_codecs() {
    assert_eq!(codec_for(0, 0), "auto");
    assert_eq!(codec_for(0, 1), "auto265");
    assert_eq!(codec_for(1, 2), "av1_nvenc");
    assert_eq!(codec_for(2, 1), "hevc_qsv");
    assert_eq!(codec_for(3, 0), "h264_amf");
    assert_eq!(codec_for(9, 9), "libaom-av1");
    assert_eq!(preset_for("autoav1"), "veryfast");
    assert_eq!(preset_for("hevc_nvenc"), "p4");
    assert_eq!(preset_for("h264_amf"), "balanced");
    assert_eq!(preset_for("libx264"), "veryfast");
    assert_eq!(vendor_of("auto265"), 0);
    assert_eq!(vendor_of("h264_qsv"), 2);
    assert_eq!(vendor_of("libx265"), 4);
    assert_eq!(codec_of("hevc_amf"), 1);
    assert_eq!(codec_of("libaom-av1"), 2);
    assert_eq!(codec_of("h264_nvenc"), 0);
    assert_eq!(container_str(0), "mp4");
    assert_eq!(container_str(1), "mkv");
    assert_eq!(container_str(7), "");
    assert_eq!(alpha_str(0), "");
    assert_eq!(alpha_str(2), "mov_prores");
    assert_eq!(alpha_str(5), "mkv_ffv1");
}

#[test]
fn form_shows_saved_settings() {
    let mut c = parse_ui_config("");
    assert_eq!(container_of(&c), 0);
    c.container = "matroska".to_string();
    assert_eq!(container_of(&c), 1);
    c.container = "".to_string();
    assert_eq!(container_of(&c), 2);
    c.alpha_format = "VP9".to_string();
    assert_eq!(alpha_index_of(&c), 1);
    c.alpha_format = "webm_av1".to_string();
    assert_eq!(alpha_index_of(&c), 0);
    c.codec = "hevc_nvenc".to_string();
    c.bitrate = 8_500_000;
    let f = form_state(&c);
    assert_eq!((f.vendor, f.codec, f.rate, f.container, f.alpha), (1, 1, 1, 2, 0));
    assert_eq!(f.kbps, "8500");
    c.bitrate = 300;
    assert_eq!(form_state(&c).kbps, "1");
    c.bitrate = 0;
    c.rate_mode = "crf".to_string();
    let f = form_state(&c);
    assert_eq!((f.rate, f.kbps.as_str()), (0, "8000"));
}

#[test]
fn form_choices_are_saved() {
    let c = settings_from_form(1, 1, 1, " 12000 ", 1, 0, "C:\\app\\ffmpeg.exe", "old");
    assert_eq!(c.ffmpeg_path, "C:\\app\\ffmpeg.exe");
    assert_eq!(c.codec, "hevc_nvenc");
    assert_eq!(c.preset, "p4");
    assert_eq!(c.bitrate, 12_000_000);
    assert_eq!(c.rate_mode, "vbr");
    assert_eq!(c.container, "mkv");
    assert_eq!(c.alpha_format, "");
    assert!(c.delete_avi && c.merge_audio);
    let c = settings_from_form(4, 0, 1, "lots", 2, 0, "ffmpeg", "D:\\old\\ffmpeg.exe");
    assert_eq!(c.ffmpeg_path, "D:\\old\\ffmpeg.exe");
    assert_eq!(c.bitrate, 8_000_000);
    assert_eq!(c.container, "");
    assert!(!c.delete_avi && !c.merge_audio);
    let c = settings_from_form(0, 0, 1, "900000", 0, 0, "ffmpeg", "ffmpeg");
    assert_eq!(c.bitrate, 400_000_000);
    let c = settings_from_form(-1, -1, 0, "0", -5, 0, "ffmpeg", "ffmpeg");
    assert_eq!((c.codec.as_str(), c.bitrate, c.rate_mode.as_str(), c.container.as_str()), ("auto", 0, "crf", "mp4"));
    let c = settings_from_form(1, 0, 1, "5000", 2, 2, "ffmpeg", "ffmpeg");
    assert_eq!((c.codec.as_str(), c.container.as_str(), c.alpha_format.as_str()), ("prores_ks", "mov", "mov_prores"));
    assert_eq!((c.bitrate, c.rate_mode.as_str(), c.preset.as_str()), (0, "crf", "veryfast"));
    assert!(c.delete_avi);
}

#[test]
fn paths_shown_and_written() {
    assert_eq!(config_file("C:\\Program Files\\MMDFfmpegEncoder"), "C:\\Program Files\\MMDFfmpegEncoder\\FFmpegEncoder.ini");
    assert_eq!(shorten_path("C:\\Program Files\\MMDFfmpegEncoder\\FFmpegEncoder.ini"), "…\\MMDFfmpegEncoder\\FFmpegEncoder.ini");
    assert_eq!(shorten_path("C:\\FFmpegEncoder.ini"), "…\\FFmpegEncoder.ini");
    assert_eq!(shorten_path("FFmpegEncoder.ini"), "…\\FFmpegEncoder.ini");
    assert_eq!(shorten_path(""), "");
    assert_eq!(program_ffmpeg_paths("C:\\app"), vec!["C:\\app\\ffmpeg.exe", "C:\\app\\bin\\ffmpeg.exe"]);
}

#[test]
fn saved_form_choices_are_shown_again() {
    for alpha in 0..4 {
        for container in 0..3 {
            for rate in 0..2 {
                let saved = settings_from_form(4, 1, rate, "2500", container, alpha, "ffmpeg", "ffmpeg");
                let mut shown = parse_ui_config("");
                shown.codec = saved.codec.clone();
                shown.bitrate = saved.bitrate;
                shown.rate_mode = saved.rate_mode.clone();
                shown.container = saved.container.clone();
                shown.alpha_format = saved.alpha_format.clone();
                let f = form_state(&shown);
                assert_eq!(f.alpha, alpha);
                if alpha == 0 {
                    assert_eq!(f.container, container);
                    assert_eq!(f.rate, rate);
                    assert_eq!(f.kbps, if rate == 1 { "2500" } else { "8000" });
                    assert_eq!((f.vendor, f.codec), (4, 1));
                }
            }
        }
    }
    for vendor in 0..5 {
        for codec in 0..3 {
            let saved = settings_from_form(vendor, codec, 0, "", 0, 0, "ffmpeg", "ffmpeg");
            assert_eq!(vendor_of(&saved.codec) as i32, vendor, "codec {}", saved.codec);
            assert_eq!(codec_of(&saved.codec) as i32, codec, "codec {}", saved.codec);
        }
    }
}

#[test]
fn filter_reads_what_the_program_saves() {
    let saved = settings_from_form(2, 1, 1, "9000", 1, 0, "C:\\app\\ffmpeg.exe", "ffmpeg");
    let text = render_ui_config(&saved);
    let f = parse_config(&text);
    assert_eq!(f.ffmpeg_path, "C:\\app\\ffmpeg.exe");
    assert_eq!(f.codec, "hevc_qsv");
    assert_eq!(f.preset, "veryfast");
    assert_eq!(f.bitrate, 9_000_000);
    assert_eq!(f.rate_mode, "vbr");
    assert_eq!(f.container, "mkv");
    assert_eq!(f.alpha_format, "");
    assert!(f.delete_avi && f.merge_audio && !f.debug);
    let d = Config::defaults();
    assert_eq!((f.out_lsample, f.out_cbextra, f.out_fourcc.as_str()), (d.out_lsample, d.out_cbextra, d.out_fourcc.as_str()));
}

#[test]
fn old_file_without_rate_mode() {
    let c = parse_config("[video]\nbitrate=8000000\n");
    assert_eq!(c.bitrate, 8_000_000);
    assert_eq!(c.rate_mode, "vbr");
    let c = parse_config("[video]\ncodec=libx265\n");
    assert_eq!(c.rate_mode, "crf");
    let c = parse_config("[video]\nbitrate=8000000\nrate_mode=cbr\n");
    assert_eq!(c.rate_mode, "cbr");
}

#[test]
fn resolving_the_resolved_ffmpeg_path_keeps_it() {
    let mut c = Config::defaults();
    c.ffmpeg_path = "D:\\gone\\ffmpeg.exe".to_string();
    let cands = vec![("C:\\f\\bin\\ffmpeg.exe".to_string(), false), ("C:\\f\\ffmpeg.exe".to_string(), true)];
    let first = resolve_ffmpeg_path(&c, false, &cands);
    assert_eq!(first, "C:\\f\\ffmpeg.exe");
    c.ffmpeg_path = first.clone();
    assert_eq!(resolve_ffmpeg_path(&c, true, &cands), first);
    c.ffmpeg_path = "D:\\gone\\ffmpeg.exe".to_string();
    let none = vec![("C:\\f\\bin\\ffmpeg.exe".to_string(), false)];
    let path = resolve_ffmpeg_path(&c, false, &none);
    assert_eq!(path, "ffmpeg");
    c.ffmpeg_path = path.clone();
    assert_eq!(resolve_ffmpeg_path(&c, false, &none), path);
}

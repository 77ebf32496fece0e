use mmd_ffmpeg_encoder::encoder::wants_auto_codec;
use mmd_ffmpeg_encoder::encoder::{startup_check, StartupCheck};
use mmd_ffmpeg_encoder::annexb::CodecKind;
use mmd_ffmpeg_encoder::config::Config;
use mmd_ffmpeg_encoder::encoder::{
    alpha_mode, alpha_mode_of, build_args, codec_kind_for_mux, codec_supported, container_format,
    cpu_fallback, encoder_failure, pick_fourcc_mux, probe_args, resolve_codec, tee_escape, AlphaMode,
    CodecStep,
};
use mmd_ffmpeg_encoder::mediatype::mmio_fourcc;
use mmd_ffmpeg_encoder::state::FormatInfo;

fn test_cfg() -> Config {
    Config {
        ffmpeg_path: "ffmpeg".to_string(),
        codec: "libx264".to_string(),
        preset: "veryfast".to_string(),
        crf: 18,
        bitrate: 0,
        rate_mode: "crf".to_string(),
        extra: String::new(),
        out_lsample: 0,
        out_cbextra: 0,
        out_bisizeimage: 0,
        out_bitrate: 0,
        out_fourcc: String::new(),
        out_rcsource_zero: false,
        debug: false,
        container: String::new(),
        container_path: String::new(),
        alpha_format: String::new(),
        delete_avi: true,
        merge_audio: true,
        write_avi_video: false,
    }
}

fn test_fmt() -> FormatInfo {
    FormatInfo {
        width: 320,
        height: 240,
        bpp: 24,
        bottom_up: false,
        pix_fmt: "bgr24".to_string(),
        frame_dur: 333_333,
    }
}

/// The command line with the frame rate worked out as the filter does.
fn args_of(c: &Config, fmt: &FormatInfo) -> Vec<String> {
    let rate = format!("{}", 10_000_000.0 / fmt.frame_dur as f64);
    build_args(c, fmt, &rate)
}

#[test]
fn vbr_nvenc_uses_plain_bitrate() {
    let mut c = test_cfg();
    c.codec = "h264_nvenc".to_string();
    c.rate_mode = "vbr".to_string();
    c.bitrate = 8_000_000;
    c.container = "mp4".to_string();
    c.container_path = "C:/out.mp4".to_string();
    let args = args_of(&c, &test_fmt());
    let joined = args.join(" ");
    assert!(joined.contains("-b:v 8000000"), "args: {}", joined);
    assert!(!joined.contains("-rc cbr"), "no CBR rc: {}", joined);
    assert!(!joined.contains("-cbr 1"), "no legacy cbr flag: {}", joined);
    assert!(!joined.contains("-x264-params"), "no x264 params: {}", joined);
}

#[test]
fn cbr_adds_rate_control_for_gpu_and_cpu() {
    let mut gpu = test_cfg();
    gpu.codec = "h264_nvenc".to_string();
    gpu.rate_mode = "cbr".to_string();
    gpu.bitrate = 8_000_000;
    let args = args_of(&gpu, &test_fmt()).join(" ");
    assert!(args.contains("-rc cbr"), "NVENC CBR: {}", args);
    assert!(args.contains("-minrate 8000000"), "minrate: {}", args);
    assert!(args.contains("-maxrate 8000000"), "maxrate: {}", args);
    assert!(args.contains("-bufsize 16000000"), "bufsize: {}", args);

    let mut cpu = test_cfg();
    cpu.rate_mode = "cbr".to_string();
    cpu.bitrate = 8_000_000;
    let args = args_of(&cpu, &test_fmt()).join(" ");
    assert!(args.contains("-x264-params nal-hrd=cbr:filler=1"), "x264 CBR filler: {}", args);
    assert!(args.contains("-maxrate 8000000"), "CPU maxrate: {}", args);

    let mut qsv = test_cfg();
    qsv.codec = "h264_qsv".to_string();
    qsv.rate_mode = "cbr".to_string();
    qsv.bitrate = 8_000_000;
    let args = args_of(&qsv, &test_fmt()).join(" ");
    assert!(!args.contains("-rc_mode"), "QSV must stay compatible: {}", args);
    assert!(args.contains("-minrate 8000000"), "QSV minrate: {}", args);
    assert!(args.contains("-low_delay_brc 1"), "QSV strict BRC: {}", args);

    let mut amf = test_cfg();
    amf.codec = "h264_amf".to_string();
    amf.rate_mode = "cbr".to_string();
    amf.bitrate = 8_000_000;
    let args = args_of(&amf, &test_fmt()).join(" ");
    assert!(args.contains("-enforce_hrd 1"), "AMF HRD: {}", args);
    assert!(args.contains("-filler_data 1"), "AMF filler: {}", args);
}

#[test]
fn crf_cpu_uses_quality() {
    let c = test_cfg();
    let args = args_of(&c, &test_fmt());
    let joined = args.join(" ");
    assert!(joined.contains("-crf 18"), "args: {}", joined);
    assert!(!joined.contains("-b:v"), "no bitrate: {}", joined);
}

#[test]
fn alpha_vp9_has_two_outputs_and_alpha() {
    let mut c = test_cfg();
    c.alpha_format = "webm_vp9".to_string();
    c.container = "webm".to_string();
    c.container_path = "C:/out.webm".to_string();
    let args = args_of(&c, &test_fmt());
    let joined = args.join(" ");
    assert!(joined.contains("-c:v libvpx-vp9"), "args: {}", joined);
    assert!(joined.contains("-pix_fmt yuva420p"), "alpha pix fmt: {}", joined);
    assert!(joined.contains("C:/out.webm"), "container path: {}", joined);
    assert!(joined.contains("-f h264 pipe:1"), "avi-side stream: {}", joined);
}

#[test]
fn alpha_prores_uses_4444_profile() {
    let mut c = test_cfg();
    c.alpha_format = "mov_prores".to_string();
    c.container = "mov".to_string();
    c.container_path = "C:/out.mov".to_string();
    let args = args_of(&c, &test_fmt());
    let joined = args.join(" ");
    assert!(joined.contains("-c:v prores_ks"), "args: {}", joined);
    assert!(joined.contains("-profile:v 4444"), "prores 4444: {}", joined);
    assert!(joined.contains("yuva444p10le"), "alpha: {}", joined);
}

#[test]
fn alpha_ffv1_uses_yuva444p() {
    let mut c = test_cfg();
    c.alpha_format = "mkv_ffv1".to_string();
    c.container = "mkv".to_string();
    c.container_path = "C:/out.mkv".to_string();
    let args = args_of(&c, &test_fmt());
    let joined = args.join(" ");
    assert!(joined.contains("-c:v ffv1"), "args: {}", joined);
    assert!(joined.contains("yuva444p"), "alpha: {}", joined);
}

#[test]
fn alpha_uses_h264_fourcc_for_avi_side() {
    let mut c = test_cfg();
    c.alpha_format = "webm_vp9".to_string();
    let (fourcc, mux) = pick_fourcc_mux(&c.codec, &c.alpha_format);
    assert_eq!(mux, "h264");
    assert_ne!(fourcc, 0);
}

#[test]
fn cpu_fallback_maps_codec_family() {
    let mut c = test_cfg();
    c.codec = "hevc_nvenc".to_string();
    let f = cpu_fallback(&c);
    assert_eq!(f.codec, "libx265");
    c.codec = "av1_nvenc".to_string();
    let f = cpu_fallback(&c);
    assert_eq!(f.codec, "libaom-av1");
    c.codec = "h264_qsv".to_string();
    let f = cpu_fallback(&c);
    assert_eq!(f.codec, "libx264");
}

#[test]
fn full_command_line_for_an_avi_only_render() {
    let c = test_cfg();
    let args = args_of(&c, &test_fmt());
    let expected: Vec<&str> = vec![
        "-y", "-hide_banner", "-loglevel", "error", "-nostdin", "-f", "rawvideo", "-pix_fmt", "bgr24",
        "-s", "320x240", "-r", "30.00003000003", "-i", "pipe:0", "-c:v", "libx264", "-preset",
        "veryfast", "-crf", "18", "-pix_fmt", "yuv420p", "-bf", "0", "-map", "0:v", "-f", "h264",
        "pipe:1",
    ];
    assert_eq!(args, expected);
}

#[test]
fn bottom_up_frames_are_flipped() {
    let c = test_cfg();
    let mut fmt = test_fmt();
    fmt.bottom_up = true;
    let joined = args_of(&c, &fmt).join(" ");
    assert!(joined.contains("-vf vflip -c:v libx264"), "args: {}", joined);
}

#[test]
fn mp4_container_uses_the_tee_muxer() {
    let mut c = test_cfg();
    c.container = "mp4".to_string();
    c.container_path = "C:/out.mp4".to_string();
    let args = args_of(&c, &test_fmt());
    let n = args.len();
    assert_eq!(args[n - 3], "-f");
    assert_eq!(args[n - 2], "tee");
    assert_eq!(args[n - 1], "[f=mp4:onfail=ignore]C\\:/out.mp4|[f=h264]pipe\\:1");
}

#[test]
fn nvenc_drops_the_veryfast_preset_and_amf_calls_it_quality() {
    let mut c = test_cfg();
    c.codec = "h264_nvenc".to_string();
    let joined = args_of(&c, &test_fmt()).join(" ");
    assert!(!joined.contains("-preset"), "args: {}", joined);
    assert!(joined.contains("-qp 23"), "args: {}", joined);
    c.codec = "h264_amf".to_string();
    c.preset = "balanced".to_string();
    let joined = args_of(&c, &test_fmt()).join(" ");
    assert!(joined.contains("-quality balanced"), "args: {}", joined);
    assert!(joined.contains("-qp_i 23 -qp_p 23"), "args: {}", joined);
}

#[test]
fn x265_cbr_passes_kbit_parameters() {
    let mut c = test_cfg();
    c.codec = "libx265".to_string();
    c.rate_mode = "CBR".to_string();
    c.bitrate = 5_000_000;
    let joined = args_of(&c, &test_fmt()).join(" ");
    assert!(
        joined.contains("-x265-params bitrate=5000:vbv-maxrate=5000:vbv-bufsize=10000"),
        "args: {}",
        joined
    );
}

#[test]
fn extra_arguments_are_split_on_white_space() {
    let mut c = test_cfg();
    c.extra = "  -tune film\t-g 60 ".to_string();
    let joined = args_of(&c, &test_fmt()).join(" ");
    assert!(joined.contains("-bf 0 -tune film -g 60 -map"), "args: {}", joined);
}

#[test]
fn tee_escape_quotes_special_characters() {
    assert_eq!(tee_escape("C:/a b/x.mp4"), "C\\:/a b/x.mp4");
    assert_eq!(tee_escape("a|b[c]"), "a\\|b\\[c\\]");
    assert_eq!(tee_escape("x\\y"), "x/y");
}

#[test]
fn container_names_map_to_ffmpeg_formats() {
    assert_eq!(container_format("MKV"), "matroska");
    assert_eq!(container_format("m4v"), "mp4");
    assert_eq!(container_format("mpegts"), "mpegts");
    assert_eq!(container_format("webm"), "webm");
    assert_eq!(container_format("avi"), "mp4");
}

#[test]
fn alpha_modes_accept_short_names() {
    assert_eq!(alpha_mode_of("VP9"), Some(AlphaMode::WebmVp9));
    assert_eq!(alpha_mode_of("webm_av1"), Some(AlphaMode::WebmAv1));
    assert_eq!(alpha_mode_of("prores"), Some(AlphaMode::MovProres));
    assert_eq!(alpha_mode_of("mkv_ffv1"), Some(AlphaMode::MkvFfv1));
    assert_eq!(alpha_mode_of(""), None);
    let mut c = test_cfg();
    c.alpha_format = "ffv1".to_string();
    assert_eq!(alpha_mode(&c), Some(AlphaMode::MkvFfv1));
}

#[test]
fn fourcc_follows_the_codec_family() {
    assert_eq!(pick_fourcc_mux("hevc_nvenc", ""), (mmio_fourcc(b'H', b'E', b'V', b'C'), "hevc"));
    assert_eq!(pick_fourcc_mux("libaom-av1", ""), (mmio_fourcc(b'a', b'v', b'0', b'1'), "av1"));
    assert_eq!(pick_fourcc_mux("ffv1", ""), (mmio_fourcc(b'F', b'F', b'V', b'1'), "ffv1"));
    assert_eq!(pick_fourcc_mux("utvideo", ""), (mmio_fourcc(b'U', b'L', b'R', b'G'), "utvideo"));
    assert_eq!(pick_fourcc_mux("libx264", ""), (mmio_fourcc(b'H', b'2', b'6', b'4'), "h264"));
    assert_eq!(pick_fourcc_mux("mystery", ""), (mmio_fourcc(b'H', b'2', b'6', b'4'), "h264"));
}

#[test]
fn mux_names_select_the_splitter() {
    assert_eq!(codec_kind_for_mux("h264"), CodecKind::H264);
    assert_eq!(codec_kind_for_mux("hevc"), CodecKind::H265);
    assert_eq!(codec_kind_for_mux("av1"), CodecKind::Other);
}

#[test]
fn stderr_failures_are_recognised() {
    assert_eq!(encoder_failure("[h264_nvenc] Driver does not support the required nvenc API"), Some("Driver does not support"));
    assert_eq!(encoder_failure("Unknown encoder 'foo'\nConversion failed!"), Some("Unknown encoder"));
    assert_eq!(encoder_failure("frame=  10 fps=0.0"), None);
}

#[test]
fn probe_verdicts() {
    assert!(codec_supported(true, ""));
    assert!(!codec_supported(false, ""));
    assert!(!codec_supported(true, "Incompatible pixel format 'yuva420p' for codec 'libaom-av1', auto-selecting format 'yuv420p'"));
}

#[test]
fn probe_encodes_one_black_frame() {
    let mut c = test_cfg();
    c.codec = "h264_qsv".to_string();
    let args = probe_args(&c);
    let joined = args.join(" ");
    assert!(joined.starts_with("-hide_banner -loglevel warning -init_hw_device qsv=hw -filter_hw_device hw -f lavfi -i color=black:s=160x120:r=30:d=1 -frames:v 1 -map 0:v"), "args: {}", joined);
    assert!(joined.contains("-c:v h264_qsv"), "args: {}", joined);
    assert!(joined.ends_with("-f null -"), "args: {}", joined);
}

#[test]
fn automatic_codec_tries_gpus_then_cpu() {
    let mut c = test_cfg();
    c.codec = " Auto265 ".to_string();
    match resolve_codec(&c, &vec![]) {
        CodecStep::Probe(p) => assert_eq!(p.codec, "hevc_nvenc"),
        CodecStep::Use(_) => panic!("expected a probe"),
    }
    match resolve_codec(&c, &vec![false, true]) {
        CodecStep::Use(codec) => assert_eq!(codec, "hevc_qsv"),
        CodecStep::Probe(_) => panic!("expected a codec"),
    }
    match resolve_codec(&c, &vec![false, false, false, false]) {
        CodecStep::Use(codec) => assert_eq!(codec, "libx265"),
        CodecStep::Probe(_) => panic!("expected a codec"),
    }
    c.codec = "libx264".to_string();
    match resolve_codec(&c, &vec![]) {
        CodecStep::Use(codec) => assert_eq!(codec, "libx264"),
        CodecStep::Probe(_) => panic!("expected a codec"),
    }
}

#[test]
fn automatic_codec_names() {
    assert!(wants_auto_codec("auto"));
    assert!(wants_auto_codec("  AutoAV1 "));
    assert!(!wants_auto_codec("libx264"));
    assert!(!wants_auto_codec("h264_auto"));
}

#[test]
fn startup_checks_exit_then_failure_then_waits() {
    assert!(matches!(startup_check(0, true, "Unknown encoder 'x'"), StartupCheck::Exited));
    assert!(matches!(
        startup_check(3, false, "Could not open encoder before the first frame"),
        StartupCheck::EncoderFailed("Could not open encoder")
    ));
    assert!(matches!(startup_check(0, false, ""), StartupCheck::Wait(true)));
    assert!(matches!(startup_check(98, false, "frame= 1"), StartupCheck::Wait(true)));
    assert!(matches!(startup_check(99, false, "frame= 1"), StartupCheck::Wait(false)));
}

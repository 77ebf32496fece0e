use mmd_ffmpeg_encoder::config::Config;
use mmd_ffmpeg_encoder::mediatype::{
    accepts_output, check_input, fourcc_guid, make_output_type, mmio_fourcc, parse_input, MediaTypeDesc,
    VideoHeader, FORMAT_VIDEOINFO, FORMAT_VIDEOINFO2, MEDIASUBTYPE_ARGB32, MEDIASUBTYPE_RGB24,
    MEDIASUBTYPE_RGB555, MEDIASUBTYPE_RGB565, MEDIASUBTYPE_RGB8, MEDIATYPE_VIDEO,
};
use mmd_ffmpeg_encoder::state::FormatInfo;

fn rgb(subtype: u128, height: i32, dur: i64) -> MediaTypeDesc {
    MediaTypeDesc {
        majortype: MEDIATYPE_VIDEO,
        subtype,
        formattype: FORMAT_VIDEOINFO,
        header: Some(VideoHeader { width: 640, height, avg_time_per_frame: dur }),
    }
}

#[test]
fn fourcc_packs_bytes_low_first() {
    assert_eq!(mmio_fourcc(b'H', b'2', b'6', b'4'), 0x3436_3248);
    assert_eq!(mmio_fourcc(0, 0, 0, 0), 0);
    assert_eq!(mmio_fourcc(0xFF, 0xFF, 0xFF, 0xFF), u32::MAX);
}

#[test]
fn only_uncompressed_rgb_video_is_accepted() {
    assert!(check_input(&rgb(MEDIASUBTYPE_RGB24, 480, 0)));
    let mut mt = rgb(MEDIASUBTYPE_RGB24, 480, 0);
    mt.formattype = FORMAT_VIDEOINFO2;
    assert!(check_input(&mt));
    mt.formattype = 0;
    assert!(!check_input(&mt));
    let mut mt = rgb(MEDIASUBTYPE_RGB24, 480, 0);
    mt.majortype = 0;
    assert!(!check_input(&mt));
    assert!(!check_input(&rgb(fourcc_guid(mmio_fourcc(b'Y', b'U', b'Y', b'2')), 480, 0)));
}

#[test]
fn input_format_of_each_subtype() {
    let f = parse_input(&rgb(MEDIASUBTYPE_RGB24, 480, 333_667)).expect("format");
    assert_eq!((f.width, f.height, f.bpp, f.bottom_up, f.frame_dur), (640, 480, 24, true, 333_667));
    assert_eq!(f.pix_fmt, "bgr24");
    let f = parse_input(&rgb(MEDIASUBTYPE_ARGB32, -480, 0)).expect("format");
    assert_eq!((f.height, f.bpp, f.bottom_up, f.frame_dur), (480, 32, false, 1));
    assert_eq!(f.pix_fmt, "bgra");
    assert_eq!(parse_input(&rgb(MEDIASUBTYPE_RGB565, 1, 1)).unwrap().pix_fmt, "rgb565le");
    assert_eq!(parse_input(&rgb(MEDIASUBTYPE_RGB555, 1, 1)).unwrap().pix_fmt, "rgb555le");
    let g = parse_input(&rgb(MEDIASUBTYPE_RGB8, 1, 1)).unwrap();
    assert_eq!((g.pix_fmt.as_str(), g.bpp), ("gray", 8));
    let mut none = rgb(MEDIASUBTYPE_RGB24, 480, 0);
    none.header = None;
    assert!(parse_input(&none).is_none());
}

#[test]
fn fourcc_subtypes_follow_the_base_guid() {
    let h264 = mmio_fourcc(b'H', b'2', b'6', b'4');
    assert_eq!(fourcc_guid(h264), 0x34363248_0000_0010_8000_00AA00389B71);
    let mt = MediaTypeDesc {
        majortype: MEDIATYPE_VIDEO,
        subtype: fourcc_guid(h264),
        formattype: FORMAT_VIDEOINFO,
        header: None,
    };
    assert!(accepts_output(&mt, h264));
    assert!(!accepts_output(&mt, mmio_fourcc(b'H', b'E', b'V', b'C')));
}

fn fmt() -> FormatInfo {
    FormatInfo { width: 320, height: 240, bpp: 24, bottom_up: true, pix_fmt: "bgr24".to_string(), frame_dur: 333_333 }
}

#[test]
fn output_type_defaults() {
    let cfg = Config::defaults();
    let h264 = mmio_fourcc(b'H', b'2', b'6', b'4');
    let t = make_output_type(&fmt(), h264, &cfg);
    assert_eq!(t.fourcc, h264);
    assert_eq!(t.subtype, fourcc_guid(h264));
    assert_eq!((t.rect_right, t.rect_bottom), (320, 240));
    assert_eq!((t.width, t.height, t.bit_count), (320, 240, 24));
    assert_eq!(t.avg_time_per_frame, 333_333);
    assert_eq!((t.bit_rate, t.size_image, t.sample_size, t.extra_format_bytes), (0, 0, 0, 0));
}

#[test]
fn output_type_tuning() {
    let mut cfg = Config::defaults();
    cfg.out_fourcc = "avc1".to_string();
    cfg.out_rcsource_zero = true;
    cfg.out_bitrate = 5_000_000;
    cfg.out_bisizeimage = -3;
    cfg.out_lsample = 1;
    cfg.out_cbextra = 16;
    let t = make_output_type(&fmt(), 7, &cfg);
    assert_eq!(t.fourcc, mmio_fourcc(b'a', b'v', b'c', b'1'));
    assert_eq!((t.rect_right, t.rect_bottom), (0, 0));
    assert_eq!((t.bit_rate, t.size_image, t.sample_size, t.extra_format_bytes), (5_000_000, 0, 1, 16));
    cfg.out_fourcc = "h26".to_string();
    assert_eq!(make_output_type(&fmt(), 7, &cfg).fourcc, 7);
}

#[test]
fn offered_output_type_is_accepted() {
    let cfg = Config::defaults();
    let hevc = mmio_fourcc(b'H', b'E', b'V', b'C');
    let t = make_output_type(&fmt(), hevc, &cfg);
    let offered = MediaTypeDesc { majortype: MEDIATYPE_VIDEO, subtype: t.subtype, formattype: FORMAT_VIDEOINFO, header: None };
    assert!(accepts_output(&offered, hevc));
    let mut tuned = Config::defaults();
    tuned.out_fourcc = "X264".to_string();
    let t = make_output_type(&fmt(), hevc, &tuned);
    let offered = MediaTypeDesc { majortype: MEDIATYPE_VIDEO, subtype: t.subtype, formattype: FORMAT_VIDEOINFO, header: None };
    assert!(!accepts_output(&offered, hevc), "an out_fourcc override is not what the pin accepts");
}

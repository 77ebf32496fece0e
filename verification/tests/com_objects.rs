use mmd_ffmpeg_encoder::allocator::request_in_range;
use mmd_ffmpeg_encoder::allocator::{AllocError, AllocProps, MediaSample, MemAllocator, AM_GBF_NOTASYNCPOINT};
use mmd_ffmpeg_encoder::com::{
    categories, class_object_request, clsid_key, filter_name, instance_key, instance_request, ComError,
    CLSID_FFMPEG_ENCODER, IID_IBASEFILTER, IID_ICLASSFACTORY, IID_IUNKNOWN,
};
use mmd_ffmpeg_encoder::enums::EnumCursor;
use mmd_ffmpeg_encoder::wide::{encode_utf16, name_field_of, name_from_units, to_wide};

#[test]
fn allocator_settles_properties() {
    let mut a = MemAllocator::new();
    assert_eq!(a.props, AllocProps { buffers: 1, size: 0, align: 1, prefix: 0 });
    let p = a.set_properties(AllocProps { buffers: 8, size: 100, align: 16, prefix: 0 });
    assert_eq!(p, AllocProps { buffers: 8, size: 112, align: 16, prefix: 0 });
    assert_eq!(a.props, p);
    let p = a.set_properties(AllocProps { buffers: 0, size: -5, align: 0, prefix: 0 });
    assert_eq!(p, AllocProps { buffers: 1, size: 1, align: 1, prefix: 0 });
}

#[test]
fn buffers_only_when_committed() {
    let mut a = MemAllocator::new();
    a.set_properties(AllocProps { buffers: 2, size: 64, align: 1, prefix: 4 });
    assert!(matches!(a.get_buffer(None, None, 0), Err(AllocError::NotCommitted)));
    a.commit();
    let s = a.get_buffer(Some(10), Some(20), AM_GBF_NOTASYNCPOINT).expect("sample");
    assert_eq!(s.size(), 60);
    assert_eq!(s.prefix(), 4);
    assert_eq!(s.time(), Some((10, 20)));
    assert!(!s.is_sync_point());
    let s = a.get_buffer(Some(10), None, 0).expect("sample");
    assert_eq!(s.time(), None);
    assert!(s.is_sync_point());
    a.decommit();
    assert!(a.get_buffer(None, None, 0).is_err());
}

#[test]
fn sample_times_flags_and_length() {
    let mut s = MediaSample::new(100, 0);
    assert_eq!(s.time(), None);
    s.set_time(Some(5), None);
    assert_eq!(s.time(), None);
    s.set_time(Some(5), Some(9));
    assert_eq!(s.time(), Some((5, 9)));
    s.set_time(None, Some(9));
    assert_eq!(s.time(), None);
    assert!(s.set_actual_len(100));
    assert_eq!(s.actual_len(), 100);
    assert!(!s.set_actual_len(101));
    assert!(!s.set_actual_len(-1));
    assert_eq!(s.actual_len(), 100);
    s.set_preroll(true);
    s.set_discontinuity(true);
    s.set_sync_point(false);
    assert!(s.is_preroll() && s.is_discontinuity() && !s.is_sync_point());
}

#[test]
fn enumerators_hand_out_items_in_order() {
    let mut e = EnumCursor::new(2);
    assert_eq!(e.next(1), (0, 1));
    assert_eq!(e.next(5), (1, 1));
    assert_eq!(e.next(1), (2, 0));
    e.reset();
    assert_eq!(e.position(), 0);
    assert!(e.skip(1));
    assert!(!e.skip(1));
    assert_eq!(e.position(), 2);
    assert!(e.skip(0));
    let mut empty = EnumCursor::new(0);
    assert_eq!(empty.next(0), (0, 0));
    assert!(!empty.skip(3));
}

#[test]
fn utf16_names() {
    assert_eq!(encode_utf16("Aé😀"), vec![0x41, 0xE9, 0xD83D, 0xDE00]);
    assert_eq!(to_wide("In"), vec![0x49, 0x6E, 0]);
    let f = name_field_of("FFmpegIn");
    assert_eq!(f.len(), 128);
    assert_eq!(&f[..9], &[0x46, 0x46, 0x6D, 0x70, 0x65, 0x67, 0x49, 0x6E, 0][..]);
    let long: String = std::iter::repeat('x').take(200).collect();
    let f = name_field_of(&long);
    assert_eq!(f.len(), 128);
    assert_eq!(f[126], 0x78);
    assert_eq!(f[127], 0);
    assert_eq!(name_from_units(&[0x46, 0x6F, 0, 0x6F]), "Fo");
    assert_eq!(name_from_units(&[0x41, 0xD83D, 0xDE00]), "A??");
    assert_eq!(name_from_units(&[]), "");
}

#[test]
fn class_factory_requests() {
    assert_eq!(class_object_request(CLSID_FFMPEG_ENCODER, IID_ICLASSFACTORY), Ok(()));
    assert_eq!(class_object_request(CLSID_FFMPEG_ENCODER, IID_IUNKNOWN), Ok(()));
    assert_eq!(class_object_request(CLSID_FFMPEG_ENCODER, IID_IBASEFILTER), Err(ComError::NoInterface));
    assert_eq!(class_object_request(IID_IBASEFILTER, IID_IUNKNOWN), Err(ComError::ClassNotAvailable));
    assert_eq!(instance_request(false, IID_IBASEFILTER), Ok(()));
    assert_eq!(instance_request(false, IID_IUNKNOWN), Ok(()));
    assert_eq!(instance_request(false, IID_ICLASSFACTORY), Err(ComError::NoInterface));
    assert_eq!(instance_request(true, IID_IBASEFILTER), Err(ComError::NoAggregation));
}

#[test]
fn registry_keys() {
    assert_eq!(clsid_key(), "Software\\Classes\\CLSID\\{D79D43B2-F005-40A4-BE18-AFD19C03E6E6}");
    let cats = categories();
    assert_eq!(cats.len(), 2);
    assert_eq!(
        instance_key(cats[0]),
        "Software\\Classes\\CLSID\\{33d9a760-90c8-11d0-bd43-00a0c911ce86}\\Instance\\{D79D43B2-F005-40A4-BE18-AFD19C03E6E6}"
    );
    assert_eq!(filter_name(), "FFmpeg Video Encoder (H.264/HEVC/AV1)");
}

#[test]
fn settled_properties_are_stable() {
    let mut a = MemAllocator::new();
    let first = a.set_properties(AllocProps { buffers: 8, size: 230_401, align: 4, prefix: 0 });
    assert_eq!(first.size % first.align, 0);
    assert!(first.size >= 230_401);
    let again = a.set_properties(first);
    assert_eq!(again, first);
}

#[test]
fn pin_ids_read_back() {
    for id in ["FFmpegIn", "FFmpegOut", "Entrée"] {
        assert_eq!(name_from_units(&to_wide(id)), id);
    }
}

#[test]
fn requests_that_would_overflow_are_recognised() {
    assert!(request_in_range(AllocProps { buffers: 1, size: 1000, align: 16, prefix: 0 }));
    assert!(request_in_range(AllocProps { buffers: 1, size: i32::MAX - 1, align: 0, prefix: 0 }));
    assert!(!request_in_range(AllocProps { buffers: 1, size: i32::MAX, align: 1, prefix: 0 }));
    let s = MediaSample::new(64, 8);
    assert_eq!((s.total(), s.prefix(), s.size()), (64, 8, 56));
}

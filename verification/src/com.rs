//! The filter as a COM server: its class id, which requests the class
//! factory answers, and the registry keys it is registered under.
use vstd::prelude::*;

use crate::text::{append_text, owned};

verus! {

/// The filter's class id, `{D79D43B2-F005-40A4-BE18-AFD19C03E6E6}`, as a
/// 128-bit number (`GUID::to_u128`).
pub const CLSID_FFMPEG_ENCODER: u128 = 0xD79D43B2_F005_40A4_BE18_AFD19C03E6E6;

/// `IUnknown`.
pub const IID_IUNKNOWN: u128 = 0x00000000_0000_0000_c000_000000000046;

/// `IClassFactory`.
pub const IID_ICLASSFACTORY: u128 = 0x00000001_0000_0000_c000_000000000046;

/// `IBaseFilter`.
pub const IID_IBASEFILTER: u128 = 0x56a86895_0ad4_11ce_b03a_0020af0ba770;

/// Why the server refuses a request.
#[derive(Clone, Copy, PartialEq, Eq, Structural, Debug)]
pub enum ComError {
    /// Not this filter's class (`CLASS_E_CLASSNOTAVAILABLE`).
    ClassNotAvailable,
    /// The interface is not offered (`E_NOINTERFACE`).
    NoInterface,
    /// The object cannot be aggregated (`CLASS_E_NOAGGREGATION`).
    NoAggregation,
}

/// `DllGetClassObject`: the class factory of this filter, as
/// `IClassFactory` or `IUnknown`.
pub open spec fn class_object_spec(clsid: u128, iid: u128) -> Result<(), ComError> {
    if clsid != CLSID_FFMPEG_ENCODER {
        Err(ComError::ClassNotAvailable)
    } else if iid == IID_ICLASSFACTORY || iid == IID_IUNKNOWN {
        Ok(())
    } else {
        Err(ComError::NoInterface)
    }
}

pub fn class_object_request(clsid: u128, iid: u128) -> (r: Result<(), ComError>)
    ensures
        r == class_object_spec(clsid, iid),
{
    if clsid != CLSID_FFMPEG_ENCODER {
        Err(ComError::ClassNotAvailable)
    } else if iid == IID_ICLASSFACTORY || iid == IID_IUNKNOWN {
        Ok(())
    } else {
        Err(ComError::NoInterface)
    }
}

/// `IClassFactory::CreateInstance`: a filter, not aggregated, as
/// `IBaseFilter` or `IUnknown`.
pub open spec fn instance_spec(aggregated: bool, iid: u128) -> Result<(), ComError> {
    if aggregated {
        Err(ComError::NoAggregation)
    } else if iid == IID_IBASEFILTER || iid == IID_IUNKNOWN {
        Ok(())
    } else {
        Err(ComError::NoInterface)
    }
}

pub fn instance_request(aggregated: bool, iid: u128) -> (r: Result<(), ComError>)
    ensures
        r == instance_spec(aggregated, iid),
{
    if aggregated {
        Err(ComError::NoAggregation)
    } else if iid == IID_IBASEFILTER || iid == IID_IUNKNOWN {
        Ok(())
    } else {
        Err(ComError::NoInterface)
    }
}

/// The filter's name, as registered and as `QueryFilterInfo` gives it.
pub open spec fn filter_name_spec() -> Seq<char> {
    "FFmpeg Video Encoder (H.264/HEVC/AV1)"@
}

pub fn filter_name() -> (r: &'static str)
    ensures
        r@ == filter_name_spec(),
{
    "FFmpeg Video Encoder (H.264/HEVC/AV1)"
}

/// The class id as the registry writes it.
pub open spec fn clsid_text() -> Seq<char> {
    "{D79D43B2-F005-40A4-BE18-AFD19C03E6E6}"@
}

pub fn clsid_str() -> (r: &'static str)
    ensures
        r@ == clsid_text(),
{
    "{D79D43B2-F005-40A4-BE18-AFD19C03E6E6}"
}

/// The filter categories it registers in: video compressors and DirectShow
/// filters.
pub open spec fn categories_spec() -> Seq<Seq<char>> {
    seq!["{33d9a760-90c8-11d0-bd43-00a0c911ce86}"@, "{860bb310-5d01-11d0-bd3b-00a0c911ce86}"@]
}

pub fn categories() -> (r: Vec<&'static str>)
    ensures
        r@.map_values(|c: &'static str| c@) == categories_spec(),
{
    let r = vec!["{33d9a760-90c8-11d0-bd43-00a0c911ce86}", "{860bb310-5d01-11d0-bd3b-00a0c911ce86}"];
    assert(r@.map_values(|c: &'static str| c@) =~= categories_spec());
    r
}

/// The class key under `HKEY_LOCAL_MACHINE`.
pub open spec fn clsid_key_spec() -> Seq<char> {
    "Software\\Classes\\CLSID\\"@ + clsid_text()
}

pub fn clsid_key() -> (r: String)
    ensures
        r@ == clsid_key_spec(),
{
    let mut r = owned("Software\\Classes\\CLSID\\");
    append_text(&mut r, clsid_str());
    r
}

/// The key that lists the filter in a category.
pub open spec fn instance_key_spec(category: Seq<char>) -> Seq<char> {
    "Software\\Classes\\CLSID\\"@ + category + "\\Instance\\"@ + clsid_text()
}

pub fn instance_key(category: &str) -> (r: String)
    ensures
        r@ == instance_key_spec(category@),
{
    let mut r = owned("Software\\Classes\\CLSID\\");
    append_text(&mut r, category);
    append_text(&mut r, "\\Instance\\");
    append_text(&mut r, clsid_str());
    r
}

} // verus!

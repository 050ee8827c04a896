use halo2_frontend::synthesis::regions::data::{RegionData, RegionDataImpl};
use halo2_frontend::synthesis::regions::RegionIndex;
use halo2_frontend::text::decimal_text;

#[test]
fn decimal_numbers() {
    assert_eq!(decimal_text(0), "0");
    assert_eq!(decimal_text(7), "7");
    assert_eq!(decimal_text(10), "10");
    assert_eq!(decimal_text(12345), "12345");
    assert_eq!(decimal_text(usize::MAX), usize::MAX.to_string());
}

#[test]
fn region_headers() {
    let mut data = RegionDataImpl::new("mul \"x\"".to_string(), RegionIndex(3));
    assert_eq!(data.index_as_str(), "3");
    assert_eq!(data.header(), "region 3 \"mul \\\"x\\\"\"");
    assert_eq!(RegionData::new(&data).header(), "region 3 \"mul \\\"x\\\"\"");
    data.take_index();
    assert_eq!(data.index_as_str(), "<unk>");
    assert_eq!(data.header(), "region <unk> \"mul \\\"x\\\"\"");
}

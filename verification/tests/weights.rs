use pallet_tags::SubstrateWeight;
use pallet_tags::Weight;
use pallet_tags::WeightInfo;

#[test]
fn create_tag_weight_adds_one_read_and_two_writes() {
    let w = SubstrateWeight::create_tag();
    assert_eq!(w.ref_time, 984_382_000 + 25_000_000 + 2 * 100_000_000);
    assert_eq!(w.proof_size, 1493);
}

#[test]
fn destroy_tag_weight_adds_one_read_and_one_write() {
    let w = SubstrateWeight::destroy_tag();
    assert_eq!(w.ref_time, 1_077_628_000 + 25_000_000 + 100_000_000);
    assert_eq!(w.proof_size, 3795);
}

#[test]
fn saturating_add_caps_each_part() {
    let a = Weight::from_parts(u64::MAX - 1, 10);
    let b = Weight::from_parts(5, 7);
    let sum = a.saturating_add(b);
    assert_eq!(sum.ref_time, u64::MAX);
    assert_eq!(sum.proof_size, 17);
}

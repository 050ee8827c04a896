use halo2_frontend::support::regions::name::RegionName;
use halo2_frontend::support::regions::trackers::{RangeTracker, RegionIndexTracker, SetTracker};
use halo2_frontend::synthesis::regions::RegionIndex;
use halo2_frontend::poly::Selector;
use halo2_frontend::resolvers::Fixed;
use halo2_frontend::synthesis::regions::{RegionEdit, Regions};
use halo2_frontend::table::{Any, Column};

#[test]
fn default_is_unassigned() {
    let name = RegionName::default();
    assert!(name.is_unassigned());
}

#[test]
fn auto_overrides_unassigned() {
    let mut name = RegionName::default();
    name.auto(&|| "test name".to_string());

    assert!(name.has_value());
    assert_eq!(name.as_str(), "test name");
}

#[test]
fn auto_doesnt_override_assigned() {
    let mut name = RegionName::default();
    name.assign_from_ref("assigned name");
    name.auto(&|| "test name".to_string());

    assert!(name.is_assigned());
    assert_eq!(name.as_str(), "assigned name");
}

#[test]
fn auto_doesnt_override_auto() {
    let mut name = RegionName::default();
    name.auto(&|| "test name".to_string());
    name.auto(&|| "test name 2".to_string());

    assert!(name.has_value());
    assert_eq!(name.as_str(), "test name");
}

#[test]
fn assigned_overrides_unassigned() {
    let mut name = RegionName::default();
    name.assign_from_ref("test name");

    assert!(name.has_value());
    assert_eq!(name.as_str(), "test name");
}

#[test]
fn assigned_overrides_auto() {
    let mut name = RegionName::default();
    name.auto(&|| "test name".to_string());
    name.assign_from_ref("assigned name");

    assert!(name.has_value());
    assert_eq!(name.as_str(), "assigned name");
}

#[test]
fn unassigned_name_text() {
    let name = RegionName::default();
    assert_eq!(name.as_str(), "<Unassigned>");
    assert!(!name.has_value());
}

fn common_test(indices: &[usize], expected: Vec<RegionIndex>, mut tracker: impl RegionIndexTracker) {
    for i in indices {
        tracker.update((*i).into());
    }
    let indices = tracker.indices().collect_all();
    assert_eq!(indices, expected);
}

fn range_test(indices: &[usize], start: usize, end: usize) {
    common_test(
        indices,
        (start..=end).map(RegionIndex::from).collect(),
        RangeTracker::default(),
    );
}

fn set_test(indices: &[usize], target: &[usize]) {
    common_test(
        indices,
        target.iter().map(|i| RegionIndex::from(*i)).collect(),
        SetTracker::default(),
    );
}

#[test]
fn update_range_extent() {
    range_test(&[1], 1, 1);
    range_test(&[1, 1], 1, 1);
    range_test(&[1, 1, 1], 1, 1);
    range_test(&[1, 2], 1, 2);
    range_test(&[1, 1, 2], 1, 2);
    range_test(&[1, 2, 2], 1, 2);
    range_test(&[2, 1, 1], 1, 2);
    range_test(&[1, 2, 3], 1, 3);
    range_test(&[1, 3], 1, 3);
    range_test(&[2, 1, 3], 1, 3);
}

#[test]
fn update_set_extent() {
    set_test(&[1], &[1]);
    set_test(&[1, 1], &[1]);
    set_test(&[1, 1, 1], &[1]);
    set_test(&[1, 2], &[1, 2]);
    set_test(&[1, 1, 2], &[1, 2]);
    set_test(&[1, 2, 2], &[1, 2]);
    set_test(&[2, 1, 1], &[1, 2]);
    set_test(&[1, 2, 3], &[1, 2, 3]);
    set_test(&[1, 3], &[1, 3]);
    set_test(&[2, 1, 3], &[1, 2, 3]);
}

#[test]
fn trackers_contain_what_they_track() {
    let mut r = RangeTracker::default();
    r.update(RegionIndex(2));
    r.update(RegionIndex(5));
    assert!(r.contains(RegionIndex(3)));
    assert!(!r.contains(RegionIndex(6)));
    let mut s = SetTracker::default();
    s.update(RegionIndex(2));
    s.update(RegionIndex(5));
    assert!(!s.contains(RegionIndex(3)));
    assert!(s.contains(RegionIndex(5)));
}

#[test]
fn edits_apply_to_the_current_region_only() {
    let mut regions = Regions::new();
    // No region is open: nothing is edited.
    assert_eq!(regions.edit(RegionEdit::PushNamespace("outer".to_string())), None);
    let mut next = 0usize;
    let mut tables: Vec<Vec<Column<Fixed>>> = Vec::new();
    regions.push("main".to_string(), &mut next, &mut tables);
    let s = Selector { index: 1, simple: true };
    assert_eq!(regions.edit(RegionEdit::EnableSelector(s, 3)), Some(()));
    assert_eq!(regions.edit(RegionEdit::UpdateExtent(Column::new(0, Any::Advice), 2)), Some(()));
    assert_eq!(regions.edit(RegionEdit::UpdateExtent(Column::new(0, Any::Advice), 5)), Some(()));
    assert_eq!(regions.edit(RegionEdit::PushNamespace("ns".to_string())), Some(()));
    assert_eq!(regions.edit(RegionEdit::PopNamespace(Some("ns".to_string()))), Some(()));
    assert_eq!(regions.edit(RegionEdit::PopNamespace(None)), Some(()));
    regions.commit();
    assert_eq!(regions.edit(RegionEdit::EnableSelector(s, 4)), None);
    let rs = regions.regions();
    assert_eq!(rs.len(), 1);
    // The namespace edits kept the selectors and the rows.
    assert_eq!(rs[0].selectors_enabled_for_row(3), vec![s]);
    assert!(rs[0].selectors_enabled_for_row(4).is_empty());
    assert_eq!(rs[0].rows(), 2..6);
    assert_eq!(rs[0].columns().len(), 1);
}

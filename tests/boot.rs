use scheduler::boot::{
    cadences, delay_between_calls, flex_sum, regions_from_entries, BootError, RegionEntry,
    DEFAULT_CALL_CEILING, MILLIS_PER_SECOND, WINDOW_SECONDS,
};

fn entry(id: u64, flex: u64, strict: bool) -> RegionEntry {
    RegionEntry {
        id: Some(id),
        topic: Some(format!("arn:topic:{}", id)),
        params: Some(format!("{{\"geocode\":\"{}\"}}", id)),
        flex: Some(flex),
        compare_since_id: Some(strict),
    }
}

#[test]
fn spacing_of_default_budget_is_two_seconds() {
    assert_eq!(delay_between_calls(900, 450), 2);
    assert_eq!(delay_between_calls(WINDOW_SECONDS, DEFAULT_CALL_CEILING), 2);
    assert_eq!(delay_between_calls(900, 1000), 0);
}

#[test]
fn flex_sum_adds_weights() {
    assert_eq!(flex_sum(&vec![1, 2]), Some(3));
    assert_eq!(flex_sum(&vec![]), Some(0));
    assert_eq!(flex_sum(&vec![u64::MAX, 1]), None);
    assert_eq!(flex_sum(&vec![u64::MAX, 0]), Some(u64::MAX));
}

#[test]
fn cadence_distribution_example() {
    assert_eq!(cadences(900, 450, &vec![1, 2], 1), Ok(vec![3, 6]));
    assert_eq!(cadences(900, 450, &vec![1, 2], MILLIS_PER_SECOND), Ok(vec![3000, 6000]));
}

#[test]
fn equal_flex_gives_equal_cadences() {
    assert_eq!(cadences(900, 450, &vec![1, 1], 1), Ok(vec![2, 2]));
}

#[test]
fn cadence_rounds_after_scaling() {
    // 1000 * 2 * 3 / 4 = 1500: the unit is applied before the division.
    assert_eq!(cadences(900, 450, &vec![1, 1, 0, 1], 1000), Ok(vec![1500, 1500, 0, 1500]));
    assert_eq!(cadences(900, 450, &vec![1, 1, 0, 1], 1), Ok(vec![1, 1, 0, 1]));
}

#[test]
fn cadence_errors() {
    assert_eq!(cadences(900, 0, &vec![1], 1), Err(BootError::ZeroCallCeiling));
    assert_eq!(cadences(900, 450, &vec![], 1), Err(BootError::NoRegions));
    assert_eq!(cadences(900, 450, &vec![u64::MAX, 1], 1), Err(BootError::Overflow));
    assert_eq!(cadences(900, 1, &vec![1], u64::MAX), Err(BootError::Overflow));
    assert_eq!(cadences(900, 450, &vec![u64::MAX, 1], 1000), Err(BootError::Overflow));
    assert_eq!(cadences(900, 450, &vec![u64::MAX / 2, 1], 1), Err(BootError::Overflow));
}

#[test]
fn bootstrap_two_equal_regions() {
    let regions = regions_from_entries(&vec![entry(10, 1, true), entry(20, 1, false)], Some(450)).unwrap();
    assert_eq!(regions.len(), 2);
    assert_eq!(regions[0].tick, 2000);
    assert_eq!(regions[1].tick, 2000);
    assert_eq!(regions[0].id, 10);
    assert_eq!(regions[1].id, 20);
    assert!(regions[0].compare_since_id);
    assert!(!regions[1].compare_since_id);
    assert_eq!(regions[0].topic, "arn:topic:10");
    assert_eq!(regions[1].params, "{\"geocode\":\"20\"}");
    assert_eq!(regions[0].since_id, 0);
    assert!(regions[0].channel.is_none());
}

#[test]
fn bootstrap_uses_default_ceiling() {
    let regions = regions_from_entries(&vec![entry(1, 1, true), entry(2, 2, true)], None).unwrap();
    assert_eq!(regions[0].tick, 3000);
    assert_eq!(regions[1].tick, 6000);
}

#[test]
fn bootstrap_rejects_first_incomplete_entry() {
    let mut bad = entry(2, 1, true);
    bad.topic = None;
    let mut worse = entry(3, 1, true);
    worse.flex = None;
    let entries = vec![entry(1, 1, true), bad, worse];
    assert_eq!(regions_from_entries(&entries, Some(450)).unwrap_err(), BootError::MalformedRegion { index: 1 });
}

#[test]
fn bootstrap_errors() {
    assert_eq!(regions_from_entries(&vec![], Some(450)).unwrap_err(), BootError::NoRegions);
    assert_eq!(regions_from_entries(&vec![entry(1, 1, true)], Some(0)).unwrap_err(), BootError::ZeroCallCeiling);
    assert_eq!(
        regions_from_entries(&vec![entry(1, u64::MAX / 1000, true)], Some(1)).unwrap_err(),
        BootError::Overflow
    );
}

#[test]
fn bootstrap_end_to_end_fires_every_region_at_once() {
    let (tx, rx) = std::sync::mpsc::channel();
    let mut regions = regions_from_entries(&vec![entry(1, 1, true), entry(2, 1, true)], Some(450)).unwrap();
    assert!(regions.iter().all(|r| r.tick == 2 * MILLIS_PER_SECOND));
    scheduler::region::attach_all(&mut regions, &tx);
    let alerts = scheduler::region::fire_all(&mut regions);
    assert!(alerts.iter().all(|a| a.is_none()));
    let sent: Vec<(u64, u64)> = rx.try_iter().map(|o| (o.region_id, o.delay)).collect();
    assert_eq!(sent, vec![(1, 0), (2, 0)]);
}

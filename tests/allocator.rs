use task_manager::core_allocator::{CoreAffinityConfig, CoreAllocator};

fn four_cores() -> CoreAllocator {
    CoreAllocator::from_cores(vec![0, 1, 2, 3])
}

#[test]
fn no_available_cores_means_no_pinning() {
    let mut a = CoreAllocator::from_cores(vec![]);
    assert_eq!(a.allocate("w", &CoreAffinityConfig::Fixed(5), None), Ok(None));
    assert_eq!(a.allocate("w", &CoreAffinityConfig::Auto, None), Ok(None));
    assert_eq!(
        a.allocate("w", &CoreAffinityConfig::Range { start: 0, end: 1 }, Some(0)),
        Ok(None)
    );
    assert_eq!(a.get_allocation_report(), "No core allocations made");
}

#[test]
fn unpinned_request_records_nothing() {
    let mut a = four_cores();
    assert_eq!(a.allocate("w", &CoreAffinityConfig::Unpinned, None), Ok(None));
    assert!(a.get_conflicts().is_empty());
    assert_eq!(a.get_allocation_report(), "No core allocations made");
}

#[test]
fn fixed_unavailable_core_names_worker_and_core() {
    let mut a = four_cores();
    let err = a
        .allocate("ingest", &CoreAffinityConfig::Fixed(99), None)
        .unwrap_err();
    assert_eq!(
        err,
        "Core 99 requested by task 'ingest' is not available. Available cores: [0, 1, 2, 3]"
    );
    assert!(err.contains("ingest"));
    assert!(err.contains("99"));
    assert_eq!(a.get_allocation_report(), "No core allocations made");
}

#[test]
fn fixed_available_core_is_assigned() {
    let mut a = four_cores();
    assert_eq!(a.allocate("w", &CoreAffinityConfig::Fixed(3), None), Ok(Some(3)));
    assert_eq!(a.allocate("v", &CoreAffinityConfig::Fixed(3), Some(7)), Ok(Some(3)));
}

#[test]
fn empty_range_names_bounds_and_worker() {
    let mut a = CoreAllocator::from_cores(vec![0, 1]);
    let err = a
        .allocate("batch", &CoreAffinityConfig::Range { start: 4, end: 6 }, Some(0))
        .unwrap_err();
    assert_eq!(
        err,
        "No cores available in range 4-6 for task 'batch'. Available cores: [0, 1]"
    );
    assert!(err.contains("batch") && err.contains('4') && err.contains('6'));
}

#[test]
fn range_distributes_instances_round_robin() {
    let mut a = four_cores();
    let range = CoreAffinityConfig::Range { start: 1, end: 2 };
    let mut got = Vec::new();
    for i in 0..4usize {
        let name = format!("worker-{}", i);
        got.push(a.allocate(&name, &range, Some(i)).unwrap().unwrap());
    }
    assert_eq!(got, vec![1, 2, 1, 2]);
}

#[test]
fn range_single_instance_takes_first_core() {
    let mut a = four_cores();
    let range = CoreAffinityConfig::Range { start: 2, end: 10 };
    assert_eq!(a.allocate("w", &range, None), Ok(Some(2)));
    assert_eq!(a.allocate("v", &range, None), Ok(Some(2)));
}

#[test]
fn auto_without_instance_index_fails() {
    for cores in [vec![0], vec![0, 1, 2, 3], vec![7, 9]] {
        let mut a = CoreAllocator::from_cores(cores);
        let err = a.allocate("solo", &CoreAffinityConfig::Auto, None).unwrap_err();
        assert_eq!(
            err,
            "Auto affinity not supported for single instance task 'solo'. Use Fixed or Range instead."
        );
    }
}

#[test]
fn auto_assigns_every_core_once_then_wraps() {
    let mut a = CoreAllocator::from_cores(vec![5, 2, 8]);
    let mut got = Vec::new();
    for i in 0..4usize {
        got.push(
            a.allocate(&format!("g-{}", i), &CoreAffinityConfig::Auto, Some(i))
                .unwrap()
                .unwrap(),
        );
    }
    assert_eq!(got, vec![5, 2, 8, 5]);
}

#[test]
fn auto_cursor_is_shared_across_groups() {
    let mut a = CoreAllocator::from_cores(vec![0, 1]);
    assert_eq!(a.allocate("a-0", &CoreAffinityConfig::Auto, Some(0)), Ok(Some(0)));
    assert_eq!(a.allocate("b-0", &CoreAffinityConfig::Auto, Some(0)), Ok(Some(1)));
    assert_eq!(a.allocate("c-0", &CoreAffinityConfig::Auto, Some(0)), Ok(Some(0)));
}

#[test]
fn conflicts_list_only_shared_cores() {
    let mut a = four_cores();
    a.allocate("a", &CoreAffinityConfig::Fixed(2), None).unwrap();
    a.allocate("b", &CoreAffinityConfig::Fixed(0), None).unwrap();
    a.allocate("c", &CoreAffinityConfig::Fixed(2), None).unwrap();
    a.allocate("d", &CoreAffinityConfig::Fixed(3), None).unwrap();
    a.allocate("e", &CoreAffinityConfig::Fixed(0), None).unwrap();
    a.allocate("f", &CoreAffinityConfig::Fixed(2), None).unwrap();
    let conflicts = a.get_conflicts();
    assert_eq!(
        conflicts,
        vec![
            (0, vec!["b".to_string(), "e".to_string()]),
            (2, vec!["a".to_string(), "c".to_string(), "f".to_string()]),
        ]
    );
    assert!(conflicts.iter().all(|(core, _)| *core != 3));
}

#[test]
fn validate_turns_conflicts_into_messages() {
    let mut a = four_cores();
    assert_eq!(a.validate(), Ok(()));
    a.allocate("x", &CoreAffinityConfig::Fixed(1), None).unwrap();
    assert_eq!(a.validate(), Ok(()));
    a.allocate("y", &CoreAffinityConfig::Fixed(1), None).unwrap();
    assert_eq!(
        a.validate(),
        Err(vec![
            "Core 1 conflict: 2 tasks pinned to same core: x, y".to_string()
        ])
    );
}

#[test]
fn report_lists_cores_in_ascending_order() {
    let mut a = four_cores();
    a.allocate("late", &CoreAffinityConfig::Fixed(3), None).unwrap();
    a.allocate("early", &CoreAffinityConfig::Fixed(1), None).unwrap();
    a.allocate("again", &CoreAffinityConfig::Fixed(3), None).unwrap();
    assert_eq!(
        a.get_allocation_report(),
        "Core Allocation Report:\n  Core 1: 1 task(s)\n    - early\n  Core 3: 2 task(s)\n    - late\n    - again\n"
    );
}

#[test]
fn large_core_ids_render_in_decimal() {
    let mut a = CoreAllocator::from_cores(vec![1024]);
    let err = a.allocate("w", &CoreAffinityConfig::Fixed(18446744073709551615), None).unwrap_err();
    assert_eq!(
        err,
        "Core 18446744073709551615 requested by task 'w' is not available. Available cores: [1024]"
    );
}

#[test]
fn default_allocator_starts_empty() {
    let a = CoreAllocator::default();
    assert!(a.get_conflicts().is_empty());
    assert_eq!(a.get_allocation_report(), "No core allocations made");
    assert_eq!(a.validate(), Ok(()));
}

use abacus::error::Condition;
use abacus::interlock::{InterlockWords, SENTINEL};
use abacus::registry::{Action, Registry, Tier, WatchedWord};

fn live(open: u64, closed: u64) -> InterlockWords {
    InterlockWords { open_count: open, closed_count: closed, expiration_ns: 1_000 }
}

fn create(reg: &mut Registry, name: &str, tier: Tier, clock_ms: u64) -> abacus::registry::Created {
    let name = name.to_string();
    reg.create(name, tier, None, None, None, None, Ok(()), clock_ms).unwrap()
}

#[test]
fn new_registry_holds_only_the_clock() {
    let reg = Registry::new();
    assert_eq!(reg.ids(), vec![0]);
    assert_eq!(reg.next_id(), 1);
    assert_eq!(reg.attach("clock"), Ok(0));
}

#[test]
fn create_then_attach_returns_the_new_id() {
    let mut reg = Registry::new();
    let c = create(&mut reg, "cam0", Tier::Interlock, 10);
    assert_eq!(c.id, 1);
    assert_eq!(c.replaced, None);
    assert_eq!((c.open_count, c.closed_count), (0, 0));
    assert_eq!(reg.attach("cam0"), Ok(1));
    assert_eq!(reg.ids(), vec![0, 1]);
}

#[test]
fn attach_unknown_name_is_not_found() {
    let reg = Registry::new();
    assert_eq!(
        reg.attach("missing"),
        Err(Condition::InterlockNotFound { name: "missing".into() })
    );
}

#[test]
fn wildebeest_replaces_the_old_entry() {
    let mut reg = Registry::new();
    let first = create(&mut reg, "contested", Tier::Interlock, 0);
    let second = create(&mut reg, "contested", Tier::Interlock, 0);
    assert_eq!(second.replaced, Some(first.id));
    assert_ne!(second.id, first.id);
    assert_eq!(reg.attach("contested"), Ok(second.id));
    assert_eq!(reg.ids(), vec![0, second.id]);
}

#[test]
fn clock_name_is_reserved() {
    let reg = Registry::new();
    let r = reg.check_create(&"clock".to_string(), Tier::Interlock, None, None, None, None);
    assert!(matches!(
        r,
        Err(Condition::InvalidRequest { ref message }) if message == "\"clock\" is a reserved name"
    ));
}

#[test]
fn wait_counter_validation() {
    let mut reg = Registry::new();
    create(&mut reg, "src", Tier::Interlock, 0);
    let name = "watch".to_string();
    let missing = reg.check_create(&name, Tier::WaitCounter, None, Some(1), None, None);
    assert!(matches!(missing, Err(Condition::InvalidRequest { ref message }) if message == "WaitCounter requires watched_name"));
    let unknown =
        reg.check_create(&name, Tier::WaitCounter, Some("nope".into()), Some(1), None, None);
    assert_eq!(unknown.err(), Some(Condition::InterlockNotFound { name: "nope".into() }));
    let no_word = reg.check_create(&name, Tier::WaitCounter, Some("src".into()), None, None, None);
    assert!(matches!(no_word, Err(Condition::InvalidRequest { ref message }) if message == "WaitCounter requires watched_word"));
    let bad_word =
        reg.check_create(&name, Tier::WaitCounter, Some("src".into()), Some(7), None, None);
    assert!(matches!(bad_word, Err(Condition::InvalidRequest { ref message }) if message == "invalid watched_word: 7"));
    let ok = reg
        .check_create(&name, Tier::WaitCounter, Some("src".into()), Some(1), None, None)
        .unwrap();
    assert_eq!(ok.watched_name, Some("src".to_string()));
    assert_eq!(ok.watched_word, Some(WatchedWord::ClosedCount));
}

#[test]
fn wait_cron_validation_and_first_grid_line() {
    let mut reg = Registry::new();
    let name = "cron".to_string();
    let none = reg.check_create(&name, Tier::WaitCron, None, None, None, None);
    assert!(matches!(none, Err(Condition::InvalidRequest { ref message }) if message == "WaitCron requires interval_ns"));
    let zero = reg.check_create(&name, Tier::WaitCron, None, None, Some(0), None);
    assert!(matches!(zero, Err(Condition::InvalidRequest { ref message }) if message == "WaitCron interval_ns must be > 0"));
    let small = reg.check_create(&name, Tier::WaitCron, None, None, Some(999_999), None);
    assert!(matches!(small, Err(Condition::InvalidRequest { ref message }) if message == "WaitCron interval_ns (999999) is less than 1ms"));
    let spec = reg.check_create(&name, Tier::WaitCron, None, None, Some(33_000_000), None).unwrap();
    assert_eq!(spec.interval_ms, Some(33));
    let c = reg.create(name, Tier::WaitCron, None, None, Some(33_000_000), None, Ok(()), 100).unwrap();
    assert_eq!((c.open_count, c.closed_count), (132, 100));
}

#[test]
fn wait_timer_and_barrier_start_values() {
    let mut reg = Registry::new();
    let t = create(&mut reg, "timer", Tier::WaitTimer, 500);
    assert_eq!((t.open_count, t.closed_count), (500, 500));
    let name = "barrier".to_string();
    let conds = vec![("timer".to_string(), 1u8, 10u64), ("clock".to_string(), 0u8, 20u64)];
    let spec = reg.check_create(&name, Tier::WaitBarrier, None, None, None, Some(conds.clone())).unwrap();
    assert_eq!(
        spec.barrier_conditions,
        Some(vec![
            ("timer".to_string(), WatchedWord::ClosedCount, 10),
            ("clock".to_string(), WatchedWord::OpenCount, 20),
        ])
    );
    let b = reg.create(name, Tier::WaitBarrier, None, None, None, Some(conds), Ok(()), 500).unwrap();
    assert_eq!((b.open_count, b.closed_count), (1, 0));
}

#[test]
fn barrier_validation_reports_first_bad_condition() {
    let reg = Registry::new();
    let name = "b".to_string();
    let conds = vec![("clock".to_string(), 5u8, 1u64), ("nope".to_string(), 0u8, 1u64)];
    let r = reg.check_create(&name, Tier::WaitBarrier, None, None, None, Some(conds));
    assert!(matches!(r, Err(Condition::InvalidRequest { ref message }) if message == "invalid watched_word: 5"));
    let conds = vec![("nope".to_string(), 5u8, 1u64)];
    let r = reg.check_create(&name, Tier::WaitBarrier, None, None, None, Some(conds));
    assert_eq!(r.err(), Some(Condition::InterlockNotFound { name: "nope".into() }));
    let r = reg.check_create(&name, Tier::WaitBarrier, None, None, None, None);
    assert!(matches!(r, Err(Condition::InvalidRequest { ref message }) if message == "WaitBarrier requires conditions"));
}

#[test]
fn pass_reaps_expired_and_keeps_clock() {
    let mut reg = Registry::new();
    create(&mut reg, "old", Tier::Interlock, 0);
    create(&mut reg, "young", Tier::Interlock, 0);
    let mut words = vec![
        InterlockWords { open_count: 5, closed_count: 1, expiration_ns: 0 },
        InterlockWords { open_count: 0, closed_count: 0, expiration_ns: 50 },
        live(0, 0),
    ];
    let actions = reg.evaluate_all(7, 100, &mut words);
    assert_eq!(actions, vec![Action::Reap { id: 1 }]);
    assert_eq!(reg.ids(), vec![0, 2]);
    assert_eq!(words[1].expiration_ns, SENTINEL);
    assert_eq!(reg.attach("old").is_err(), true);
}

#[test]
fn pass_reaps_on_sentinel_words() {
    let mut reg = Registry::new();
    create(&mut reg, "freed", Tier::Interlock, 0);
    create(&mut reg, "dropped", Tier::Interlock, 0);
    let mut words = vec![live(0, 0), live(SENTINEL, 0), InterlockWords { expiration_ns: SENTINEL, ..live(0, 0) }];
    let actions = reg.evaluate_all(7, 100, &mut words);
    assert_eq!(actions, vec![Action::Reap { id: 1 }, Action::Reap { id: 2 }]);
    assert_eq!(reg.ids(), vec![0]);
}

#[test]
fn pass_fires_timer_at_target() {
    let mut reg = Registry::new();
    create(&mut reg, "t", Tier::WaitTimer, 0);
    // Target 50: not yet at clock 49, fired at clock 50.
    let mut words = vec![live(49, 0), live(50, 0)];
    assert_eq!(reg.evaluate_all(49, 10, &mut words), vec![]);
    let mut words = vec![live(50, 0), live(50, 0)];
    assert_eq!(
        reg.evaluate_all(50, 10, &mut words),
        vec![Action::Stamp { id: 1, closed_count: 50 }]
    );
    assert_eq!(words[1].closed_count, 50);
}

#[test]
fn pass_fires_counter_when_watched_word_crosses() {
    let mut reg = Registry::new();
    create(&mut reg, "source", Tier::Interlock, 0);
    let name = "watcher".to_string();
    reg.create(name, Tier::WaitCounter, Some("source".into()), Some(1), None, None, Ok(()), 0).unwrap();
    let mut words = vec![live(0, 0), live(0, 4), live(5, 0)];
    assert_eq!(reg.evaluate_all(0, 10, &mut words), vec![]);
    let mut words = vec![live(0, 0), live(0, 10), live(5, 0)];
    assert_eq!(
        reg.evaluate_all(0, 10, &mut words),
        vec![Action::Stamp { id: 2, closed_count: 10 }]
    );
}

#[test]
fn pass_rearms_cron_to_next_grid_line() {
    let mut reg = Registry::new();
    let name = "cron".to_string();
    reg.create(name, Tier::WaitCron, None, None, Some(33_000_000), None, Ok(()), 100).unwrap();
    let mut words = vec![live(140, 0), live(132, 100)];
    let actions = reg.evaluate_all(140, 10, &mut words);
    assert_eq!(
        actions,
        vec![
            Action::Stamp { id: 1, closed_count: 140 },
            Action::ReArm { id: 1, open_count: 165 },
        ]
    );
    assert_eq!((words[1].open_count, words[1].closed_count), (165, 140));
}

#[test]
fn pass_fires_barrier_only_when_all_conditions_hold() {
    let mut reg = Registry::new();
    create(&mut reg, "a", Tier::Interlock, 0);
    create(&mut reg, "b", Tier::Interlock, 0);
    let name = "all".to_string();
    let conds = vec![("a".to_string(), 1u8, 10u64), ("b".to_string(), 0u8, 3u64)];
    reg.create(name, Tier::WaitBarrier, None, None, None, Some(conds), Ok(()), 0).unwrap();
    let mut words = vec![live(77, 0), live(0, 10), live(2, 0), live(1, 0)];
    assert_eq!(reg.evaluate_all(77, 10, &mut words), vec![]);
    let mut words = vec![live(77, 0), live(0, 10), live(3, 0), live(1, 0)];
    assert_eq!(
        reg.evaluate_all(77, 10, &mut words),
        vec![Action::Stamp { id: 3, closed_count: 77 }]
    );
}

#[test]
fn pass_leaves_closed_and_overrun_alone() {
    let mut reg = Registry::new();
    create(&mut reg, "t", Tier::WaitTimer, 0);
    let mut words = vec![live(99, 0), live(5, 5)];
    assert_eq!(reg.evaluate_all(99, 10, &mut words), vec![]);
    let mut words = vec![live(99, 0), live(5, 9)];
    assert_eq!(reg.evaluate_all(99, 10, &mut words), vec![]);
    assert_eq!(reg.ids(), vec![0, 1]);
}

#[test]
fn later_entries_see_earlier_stamps() {
    let mut reg = Registry::new();
    create(&mut reg, "timer", Tier::WaitTimer, 0);
    let name = "follower".to_string();
    reg.create(name, Tier::WaitCounter, Some("timer".into()), Some(1), None, None, Ok(()), 0).unwrap();
    // The timer fires at clock 30 and stamps 30; the follower waits for 30.
    let mut words = vec![live(30, 0), live(30, 0), live(30, 0)];
    assert_eq!(
        reg.evaluate_all(30, 10, &mut words),
        vec![Action::Stamp { id: 1, closed_count: 30 }, Action::Stamp { id: 2, closed_count: 30 }]
    );
}

#[test]
fn created_ids_increase_across_replacement_and_passes() {
    let mut reg = Registry::new();
    let a = create(&mut reg, "a", Tier::Interlock, 0);
    let b = create(&mut reg, "a", Tier::Interlock, 0);
    let mut words = vec![live(0, 0), live(0, 0)];
    reg.evaluate_all(0, 10, &mut words);
    let c = create(&mut reg, "c", Tier::Interlock, 0);
    assert_eq!((a.id, b.id, c.id), (1, 2, 3));
    assert_eq!(reg.next_id(), 4);
}

#[test]
fn cron_lines_must_fit_the_clock() {
    let mut reg = Registry::new();
    assert!(reg.cron_lines_fit(u64::MAX));
    let name = "cron".to_string();
    reg.create(name, Tier::WaitCron, None, None, Some(10_000_000), None, Ok(()), 0).unwrap();
    assert!(reg.cron_lines_fit(u64::MAX - 10));
    assert!(!reg.cron_lines_fit(u64::MAX - 5));
}

#[test]
fn refused_creates_leave_the_registry_and_ids_alone() {
    let mut reg = Registry::new();
    let cron = reg.create("c".to_string(), Tier::WaitCron, None, None, Some(500_000), None, Ok(()), 0);
    assert!(matches!(cron, Err(Condition::InvalidRequest { ref message }) if message == "WaitCron interval_ns (500000) is less than 1ms"));
    assert!(matches!(reg.attach("c"), Err(Condition::InterlockNotFound { .. })));
    let clock = reg.create("clock".to_string(), Tier::Interlock, None, None, None, None, Ok(()), 0);
    assert!(matches!(clock, Err(Condition::InvalidRequest { ref message }) if message == "\"clock\" is a reserved name"));
    assert_eq!(reg.attach("clock"), Ok(0));
    let missing = reg.create("w".to_string(), Tier::WaitCounter, Some("nope".into()), Some(0), None, None, Ok(()), 0);
    assert_eq!(missing.err(), Some(Condition::InterlockNotFound { name: "nope".into() }));
    let no_mem = Condition::AllocationFailed { step: abacus::error::AllocationStep::Mmap, errno: 12 };
    let failed = reg.create("a".to_string(), Tier::Interlock, None, None, None, None, Err(no_mem.clone()), 0);
    assert_eq!(failed.err(), Some(no_mem));
    // Validation is answered before the allocation's outcome.
    let both = reg.create("clock".to_string(), Tier::Interlock, None, None, None, None, Err(Condition::InterlockReaped), 0);
    assert!(matches!(both, Err(Condition::InvalidRequest { .. })));
    assert_eq!(reg.ids(), vec![0]);
    assert_eq!(reg.next_id(), 1);
    assert_eq!(create(&mut reg, "a", Tier::Interlock, 0).id, 1);
}

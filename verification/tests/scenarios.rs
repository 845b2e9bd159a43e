use abacus::client::check_attach_name;
use abacus::interlock::{arm_deadline, arm_step, creation_deadline, terminated, ArmStep, InterlockWords, SENTINEL};
use abacus::registry::{Action, Created, Registry, Tier};
use abacus::types::{counter_value, WaitState};
use abacus::waits::delivered;

const MS: u64 = 1_000_000;

fn create(reg: &mut Registry, name: &str, tier: Tier) -> Created {
    let name = name.to_string();
    reg.create(name, tier, None, None, None, None, Ok(()), 0).unwrap()
}

fn words(c: &Created, expiration_ns: u64) -> InterlockWords {
    InterlockWords { open_count: c.open_count, closed_count: c.closed_count, expiration_ns }
}

fn clock_words() -> InterlockWords {
    InterlockWords { open_count: 0, closed_count: 0, expiration_ns: u64::MAX - 1 }
}

/// What touch() sees: arming a terminated interlock is refused.
fn touch_refused(w: &InterlockWords, now: u64) -> bool {
    arm_step(w.expiration_ns, arm_deadline(now, 100 * MS)) == ArmStep::Reaped
}

#[test]
fn attach_clock_by_name_is_rejected() {
    let result = check_attach_name("clock");
    assert!(result.is_err(), "attaching to 'clock' by name should be rejected");
}

#[test]
fn interlock_open_close_value() {
    let mut reg = Registry::new();
    let c = create(&mut reg, "worker", Tier::Interlock);
    let (mut open, mut closed) = (c.open_count, c.closed_count);
    assert_eq!(counter_value(open, closed), 0);
    open += 3;
    assert_eq!(counter_value(open, closed), 3);
    closed += 1;
    assert_eq!(counter_value(open, closed), 2);
    closed += 2;
    assert_eq!(counter_value(open, closed), 0);
    assert_eq!((open, closed), (3, 3));
}

#[test]
fn wildebeest_reaps_old_interlock() {
    let mut reg = Registry::new();
    let first = create(&mut reg, "contested", Tier::Interlock);
    let mut old = words(&first, creation_deadline(0));
    old.open_count += 42;
    let second = create(&mut reg, "contested", Tier::Interlock);
    assert_eq!(second.replaced, Some(first.id));
    // The replaced interlock is terminated: its next touch is refused.
    let old = terminated(old);
    assert!(touch_refused(&old, 5 * MS), "old interlock should be reaped after name collision");
    assert_eq!((second.open_count, second.closed_count), (0, 0));
}

#[test]
fn interlock_is_reaped_when_not_touched() {
    let mut reg = Registry::new();
    let c = create(&mut reg, "ephemeral", Tier::Interlock);
    let mut ws = vec![clock_words(), words(&c, creation_deadline(0))];
    let actions = reg.evaluate_all(150, 150 * MS, &mut ws);
    assert_eq!(actions, vec![Action::Reap { id: c.id }]);
    assert!(touch_refused(&ws[1], 150 * MS), "expected InterlockReaped after TTL lapsed");
}

#[test]
fn free_terminates_interlock() {
    let mut reg = Registry::new();
    let c = create(&mut reg, "doomed", Tier::Interlock);
    let mut w = words(&c, creation_deadline(0));
    w.open_count += 1;
    let w = terminated(w);
    assert!(touch_refused(&w, MS), "touch after free() should return InterlockReaped");
    let mut ws = vec![clock_words(), w];
    assert_eq!(reg.evaluate_all(5, 5 * MS, &mut ws), vec![Action::Reap { id: c.id }]);
    let again = create(&mut reg, "doomed", Tier::Interlock);
    assert_eq!(again.replaced, None);
    assert_eq!((again.open_count, again.closed_count), (0, 0));
}

#[test]
fn attacher_free_terminates_interlock() {
    let mut reg = Registry::new();
    let c = create(&mut reg, "shared", Tier::Interlock);
    assert_eq!(reg.attach("shared"), Ok(c.id));
    let mut freed = words(&c, creation_deadline(0));
    freed.open_count = SENTINEL;
    let mut ws = vec![clock_words(), freed];
    assert_eq!(reg.evaluate_all(5, 5 * MS, &mut ws), vec![Action::Reap { id: c.id }]);
    let attach_result = reg.attach("shared");
    assert!(attach_result.is_err(), "attach after free() should return InterlockNotFound");
}

#[test]
fn attached_wait_counter_is_read_only() {
    let mut reg = Registry::new();
    create(&mut reg, "src", Tier::Interlock);
    let name = "watched".to_string();
    let counter = reg.create(name, Tier::WaitCounter, Some("src".into()), Some(1), None, None, Ok(()), 0).unwrap();
    assert_eq!(reg.attach("watched"), Ok(counter.id));
    let (open, closed) = (counter.open_count, counter.closed_count);
    assert_eq!(open, 0);
    assert_eq!(closed, 0);
    assert_eq!(counter_value(open, closed), 0);
}

#[test]
fn wait_counter_wakes_on_interlock_advance() {
    let mut reg = Registry::new();
    let source = create(&mut reg, "source", Tier::Interlock);
    let name = "watcher".to_string();
    let counter = reg.create(name, Tier::WaitCounter, Some("source".into()), Some(1), None, None, Ok(()), 0).unwrap();
    let live = creation_deadline(0);
    // The waiter sets target 5; the source has closed 10.
    let mut src_words = words(&source, live);
    src_words.closed_count += 10;
    let mut w = words(&counter, live);
    w.open_count = 5;
    let mut ws = vec![clock_words(), src_words, w];
    let actions = reg.evaluate_all(30, 30 * MS, &mut ws);
    assert_eq!(actions, vec![Action::Stamp { id: counter.id, closed_count: 10 }]);
    let result = delivered(ws[2].open_count, ws[2].closed_count).unwrap();
    assert!(
        matches!(result.state, WaitState::Normal | WaitState::Overrun),
        "expected Normal or Overrun, got {:?}",
        result.state
    );
    assert!(result.completed_at >= 5, "completed_at should be >= 5, got {}", result.completed_at);
}

use abacus::client::{attach_request, create_request, peek_says_connected, wait_barrier_request, wait_cron_request};
use abacus::daemon::{plan_request, RequestPlan};
use abacus::registry::{Registry, Tier};
use abacus::types::WatchedWord;
use abacus::wire::{Request, Response};

#[test]
fn sdk_builds_create_requests() {
    assert_eq!(
        create_request("w", 1, Some("src"), Some(1)),
        Request::CreateInterlock {
            name: "w".into(),
            tier: 1,
            watched_name: Some("src".into()),
            watched_word: Some(1),
            interval_ns: None,
            conditions: None,
        }
    );
    assert_eq!(
        wait_cron_request("c", 33),
        Request::CreateInterlock {
            name: "c".into(),
            tier: 3,
            watched_name: None,
            watched_word: None,
            interval_ns: Some(33_000_000),
            conditions: None,
        }
    );
    assert_eq!(
        wait_barrier_request(
            "b",
            vec![("cam0".into(), WatchedWord::ClosedCount, 100), ("cam1".into(), WatchedWord::OpenCount, 5)]
        ),
        Request::CreateInterlock {
            name: "b".into(),
            tier: 4,
            watched_name: None,
            watched_word: None,
            interval_ns: None,
            conditions: Some(vec![("cam0".into(), 1, 100), ("cam1".into(), 0, 5)]),
        }
    );
    assert_eq!(attach_request("s"), Request::AttachInterlock { name: "s".into() });
}

fn create_req(name: &str, tier: u8) -> Request {
    Request::CreateInterlock {
        name: name.into(),
        tier,
        watched_name: None,
        watched_word: None,
        interval_ns: None,
        conditions: None,
    }
}

#[test]
fn daemon_plans_an_attach_by_name() {
    let reg = Registry::new();
    match plan_request(&reg, attach_request("clock")) {
        RequestPlan::Attach { id } => assert_eq!(id, 0),
        _ => panic!("expected an attach"),
    }
    match plan_request(&reg, attach_request("nope")) {
        RequestPlan::Reply(r) => assert_eq!(
            r,
            Response::Error { code: 0x02, message: "InterlockNotFound: InterlockNotFound: nope".into() }
        ),
        _ => panic!("expected a reply"),
    }
}

#[test]
fn daemon_refuses_an_unknown_tier() {
    let reg = Registry::new();
    match plan_request(&reg, create_req("x", 9)) {
        RequestPlan::Reply(r) => {
            assert_eq!(r, Response::Error { code: 0x04, message: "invalid tier".into() })
        }
        _ => panic!("expected a reply"),
    }
}

#[test]
fn daemon_plans_a_create_by_its_tier() {
    let mut reg = Registry::new();
    match plan_request(&reg, create_req("cam0", 0)) {
        RequestPlan::Create { name, tier, watched_name, watched_word, interval_ns, conditions } => {
            assert_eq!(name, "cam0");
            assert_eq!(tier, Tier::Interlock);
            let c = reg
                .create(name, tier, watched_name, watched_word, interval_ns, conditions, Ok(()), 5)
                .unwrap();
            assert_eq!(c.id, 1);
        }
        _ => panic!("expected a create"),
    }
    assert_eq!(reg.attach("cam0"), Ok(1));
    // A create's validation happens in Registry::create; the plan passes the
    // fields on.
    match plan_request(&reg, create_req("clock", 0)) {
        RequestPlan::Create { name, tier, .. } => {
            assert_eq!(name, "clock");
            assert_eq!(tier, Tier::Interlock);
        }
        _ => panic!("expected a create"),
    }
}

#[test]
fn peek_tells_a_live_connection_from_a_dead_one() {
    assert!(peek_says_connected(1, 0, 11, 11));
    assert!(!peek_says_connected(0, 0, 11, 11));
    assert!(peek_says_connected(-1, 11, 11, 11));
    assert!(!peek_says_connected(-1, 104, 11, 11));
}

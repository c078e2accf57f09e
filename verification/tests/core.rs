use cldpip::addr::Address;
use cldpip::dispatcher::ChangeQueue;
use cldpip::models::DNSRecord;
use cldpip::models::DNSRecordMeta;
use cldpip::models::DNSType;
use cldpip::poller::ChangeEvent;
use cldpip::poller::PollerState;
use cldpip::reconciler::apply_update;
use cldpip::reconciler::build_update;
use cldpip::reconciler::reconcile_with_store;
use cldpip::reconciler::records_with_content;
use cldpip::reconciler::ReconcileStats;
use cldpip::reconciler::ReconcileStep;
use cldpip::reconciler::Reconciliation;

fn a_record(id: &str, name: &str, content: &str) -> DNSRecord {
    let mut r = DNSRecord::default();
    r.id = String::from(id);
    r.name = String::from(name);
    r.content = String::from(content);
    r.kind = DNSType::A;
    r
}

// The poller emits one event per tick, and `AddressChanged` exactly when
// the resolved address differs from the last known one.
#[test]
fn poller_emits_one_event_per_tick() {
    let seed = Address::new(1, 2, 3, 4);
    let mut poller = PollerState::seed(seed);

    let first = poller.tick(Some(Address::new(1, 2, 3, 4)));
    assert_eq!(first, ChangeEvent::Unchanged);

    let second = poller.tick(Some(Address::new(5, 6, 7, 8)));
    assert_eq!(
        second,
        ChangeEvent::AddressChanged {
            old_addr: Address::new(1, 2, 3, 4),
            new_addr: Address::new(5, 6, 7, 8),
        }
    );
    assert_eq!(poller.last_known_address, Address::new(5, 6, 7, 8));

    let third = poller.tick(None);
    assert_eq!(third, ChangeEvent::LookupFailed);
    assert_eq!(poller.last_known_address, Address::new(5, 6, 7, 8));

    let fourth = poller.tick(Some(Address::new(5, 6, 7, 8)));
    assert_eq!(fourth, ChangeEvent::Unchanged);
}

#[test]
fn dispatcher_delivers_in_emission_order() {
    let mut q = ChangeQueue::new();
    assert_eq!(q.len(), 0);
    q.send(ChangeEvent::Unchanged);
    q.send(ChangeEvent::LookupFailed);
    q.send(ChangeEvent::AddressChanged {
        old_addr: Address::new(1, 2, 3, 4),
        new_addr: Address::new(5, 6, 7, 8),
    });
    assert_eq!(q.len(), 3);
    assert_eq!(q.recv(), Some(ChangeEvent::Unchanged));
    assert_eq!(q.recv(), Some(ChangeEvent::LookupFailed));
    assert_eq!(
        q.recv(),
        Some(ChangeEvent::AddressChanged {
            old_addr: Address::new(1, 2, 3, 4),
            new_addr: Address::new(5, 6, 7, 8),
        })
    );
    assert_eq!(q.recv(), None);
}

// Every field of the update payload other than content matches the
// fetched record.
#[test]
fn update_payload_preserves_every_other_field() {
    let mut r = a_record("rec1", "host.example.com", "1.2.3.4");
    r.proxied = Some(true);
    r.comment = Some(String::from("keep me"));
    r.tags = Some(vec![String::from("t1"), String::from("t2")]);
    r.ttl = Some(120);
    r.meta = Some(DNSRecordMeta { auto_added: false, source: None });
    r.created_on = 1600000000;
    r.modified_on = 1700000000;

    let u = build_update(&r, &Address::new(5, 6, 7, 8));

    assert_eq!(u.content, "5.6.7.8");
    assert_eq!(u.name, r.name);
    assert_eq!(u.proxied, r.proxied);
    assert_eq!(u.kind, r.kind);
    assert_eq!(u.comment, r.comment);
    assert_eq!(u.id, r.id);
    assert_eq!(u.tags, r.tags);
    assert_eq!(u.ttl, r.ttl);
}

// The scenario: the resolver answers 1.2.3.4, 1.2.3.4, then 5.6.7.8; the
// poller reports Unchanged then the change; the store holds two A-records
// with the old address; both are fetched, both updated, no retry.
#[test]
fn change_scenario_updates_both_records_without_retry() {
    let mut poller = PollerState::seed(Address::new(1, 2, 3, 4));
    assert_eq!(poller.tick(Some(Address::new(1, 2, 3, 4))), ChangeEvent::Unchanged);
    let event = poller.tick(Some(Address::new(5, 6, 7, 8)));
    let (old_addr, new_addr) = match event {
        ChangeEvent::AddressChanged { old_addr, new_addr } => (old_addr, new_addr),
        _ => panic!("expected an address change"),
    };
    assert_eq!(old_addr, Address::new(1, 2, 3, 4));
    assert_eq!(new_addr, Address::new(5, 6, 7, 8));

    let mut store = vec![
        a_record("rec1", "one.example.com", "1.2.3.4"),
        a_record("rec2", "two.example.com", "1.2.3.4"),
        a_record("rec3", "other.example.com", "9.9.9.9"),
    ];
    let matched = records_with_content(&store, &String::from("1.2.3.4"));
    assert_eq!(matched.len(), 2);

    let stats = reconcile_with_store(&mut store, old_addr, new_addr, 0);
    assert_eq!(stats, ReconcileStats { attempts: 1, fetches: 1, writes: 2 });
    assert_eq!(store[0].content, "5.6.7.8");
    assert_eq!(store[1].content, "5.6.7.8");
    assert_eq!(store[2].content, "9.9.9.9");
    assert_eq!(store[0].name, "one.example.com");
    assert_eq!(store[1].name, "two.example.com");
}

// One write fails, then everything succeeds: two attempts, two fetches.
#[test]
fn one_write_failure_costs_one_whole_attempt() {
    let mut store = vec![
        a_record("rec1", "one.example.com", "1.2.3.4"),
        a_record("rec2", "two.example.com", "1.2.3.4"),
    ];
    let stats =
        reconcile_with_store(&mut store, Address::new(1, 2, 3, 4), Address::new(5, 6, 7, 8), 1);
    assert_eq!(stats.attempts, 2);
    assert_eq!(stats.fetches, 2);
    assert_eq!(stats.writes, 3);
    assert_eq!(store[0].content, "5.6.7.8");
    assert_eq!(store[1].content, "5.6.7.8");
}

// However many writes fail at first, the reconciler converges and stops.
#[test]
fn converges_after_any_number_of_early_failures() {
    let mut store = vec![
        a_record("rec1", "one.example.com", "1.2.3.4"),
        a_record("rec2", "two.example.com", "1.2.3.4"),
        a_record("rec3", "other.example.com", "8.8.8.8"),
    ];
    let stats =
        reconcile_with_store(&mut store, Address::new(1, 2, 3, 4), Address::new(5, 6, 7, 8), 7);
    assert_eq!(stats.attempts, 8);
    assert_eq!(stats.fetches, 8);
    assert_eq!(stats.writes, 9);
    assert_eq!(store[0].content, "5.6.7.8");
    assert_eq!(store[1].content, "5.6.7.8");
    assert_eq!(store[2].content, "8.8.8.8");
}

// An empty fetch finishes the event with zero writes.
#[test]
fn empty_fetch_short_circuits_with_zero_writes() {
    let mut store = vec![a_record("rec1", "one.example.com", "9.9.9.9")];
    let kept = store[0].clone();
    let stats =
        reconcile_with_store(&mut store, Address::new(1, 2, 3, 4), Address::new(5, 6, 7, 8), 3);
    assert_eq!(stats, ReconcileStats { attempts: 1, fetches: 1, writes: 0 });
    assert_eq!(store[0], kept);
}

// Reconciling the same change twice leaves the store exactly as
// reconciling it once did.
#[test]
fn reconciling_twice_changes_nothing_more() {
    let old_addr = Address::new(1, 2, 3, 4);
    let new_addr = Address::new(5, 6, 7, 8);
    let mut store = vec![
        a_record("rec1", "one.example.com", "1.2.3.4"),
        a_record("rec2", "other.example.com", "9.9.9.9"),
    ];
    reconcile_with_store(&mut store, old_addr, new_addr, 0);
    let after_once: Vec<DNSRecord> = store.iter().map(|r| r.clone()).collect();
    reconcile_with_store(&mut store, old_addr, new_addr, 0);
    assert_eq!(store, after_once);
}

// The state machine itself: an empty fetch is Done, a fetch with records
// walks them in order, a failure backs off and refetches.
#[test]
fn reconciliation_machine_steps() {
    let old_addr = Address::new(1, 2, 3, 4);
    let new_addr = Address::new(5, 6, 7, 8);

    let mut machine = Reconciliation::new(old_addr, new_addr);
    let step = machine.on_fetch_success(vec![]);
    assert_eq!(step, ReconcileStep::Done);

    let mut machine = Reconciliation::new(old_addr, new_addr);
    let records = vec![
        a_record("rec1", "one.example.com", "1.2.3.4"),
        a_record("rec2", "two.example.com", "1.2.3.4"),
    ];
    let step = machine.on_fetch_success(records);
    let first = match step {
        ReconcileStep::Write(u) => u,
        other => panic!("expected a write, got {:?}", other),
    };
    assert_eq!(first.id, "rec1");
    assert_eq!(first.content, "5.6.7.8");

    let step = machine.on_write_success();
    let second = match step {
        ReconcileStep::Write(u) => u,
        other => panic!("expected a write, got {:?}", other),
    };
    assert_eq!(second.id, "rec2");
    assert_eq!(machine.pending_len(), 1);

    let step = machine.on_write_failure();
    assert_eq!(step, ReconcileStep::Backoff);
    assert_eq!(machine.pending_len(), 0);
    let step = machine.on_backoff_elapsed();
    assert_eq!(step, ReconcileStep::Fetch);

    let step = machine.on_fetch_failure();
    assert_eq!(step, ReconcileStep::Backoff);
}

#[test]
fn fetching_from_an_empty_store_matches_nothing() {
    let store: Vec<DNSRecord> = vec![];
    let matched = records_with_content(&store, &String::from("1.2.3.4"));
    assert!(matched.is_empty());
}

#[test]
fn applying_an_update_touches_only_the_addressed_record() {
    let mut store = vec![
        a_record("rec1", "one.example.com", "1.2.3.4"),
        a_record("rec2", "two.example.com", "1.2.3.4"),
    ];
    let update = build_update(&store[1], &Address::new(5, 6, 7, 8));
    apply_update(&mut store, &update);
    assert_eq!(store[0].content, "1.2.3.4");
    assert_eq!(store[1].content, "5.6.7.8");
    assert_eq!(store[1].name, "two.example.com");
}

#[test]
fn machine_finishes_after_last_write() {
    let mut machine = Reconciliation::new(Address::new(1, 2, 3, 4), Address::new(5, 6, 7, 8));
    let step = machine.on_fetch_success(vec![a_record("rec1", "one.example.com", "1.2.3.4")]);
    assert!(matches!(step, ReconcileStep::Write(_)));
    let step = machine.on_write_success();
    assert_eq!(step, ReconcileStep::Done);
    assert_eq!(machine.pending_len(), 0);
}

use fanout_balancer::gate::DeliveryGate;
use fanout_balancer::quarantine::QuarantineSet;
use fanout_balancer::round::{Round, NO_SERVERS_BODY, NO_SERVERS_STATUS};

fn slot_body(slot: u64) -> String {
    format!("{{\"result\":{{\"context\":{{\"slot\":{}}},\"value\":null}}}}", slot)
}

#[test]
fn gate_accepts_first_commit_only() {
    let mut gate = DeliveryGate::new();
    assert!(!gate.is_committed());
    assert!(gate.commit(200, "first".to_string()));
    assert!(!gate.commit(201, "second".to_string()));
    let d = gate.committed().unwrap();
    assert_eq!(d.status, 200);
    assert_eq!(d.body, "first");
}

#[test]
fn quarantined_first_reply_is_skipped() {
    // B completes first but is quarantined; A completes second and wins; C comes third.
    let mut store = QuarantineSet::new();
    store.replace_with_round(&vec![(100, "A".to_string()), (50, "B".to_string())]);
    assert!(store.contains(&"B".to_string()));
    let mut round = Round::new();
    assert!(round.on_reply("B".to_string(), 200, slot_body(100), &store).is_none());
    let won = round.on_reply("A".to_string(), 200, slot_body(100), &store).unwrap();
    assert_eq!(won.body, slot_body(100));
    assert!(round.on_reply("C".to_string(), 200, slot_body(93), &store).is_none());
    assert!(round.finish(&mut store).is_none());
    assert!(store.hosts().is_empty());
}

#[test]
fn all_transport_errors_give_fixed_failure() {
    let mut store = QuarantineSet::new();
    let round = Round::new();
    let failure = round.finish(&mut store).unwrap();
    assert_eq!(failure.status, 500);
    assert_eq!(NO_SERVERS_STATUS, 500);
    assert_eq!(failure.body, "No servers available");
    assert_eq!(NO_SERVERS_BODY, "No servers available");
}

#[test]
fn every_reply_quarantined_gives_fixed_failure() {
    let mut store = QuarantineSet::new();
    store.replace_with_round(&vec![(100, "A".to_string()), (1, "B".to_string())]);
    let mut round = Round::new();
    assert!(round.on_reply("B".to_string(), 200, slot_body(5), &store).is_none());
    let failure = round.finish(&mut store).unwrap();
    assert_eq!(failure.status, 500);
    assert_eq!(failure.body, "No servers available");
    assert!(store.hosts().is_empty());
}

#[test]
fn reply_without_slot_still_wins() {
    let mut store = QuarantineSet::new();
    let mut round = Round::new();
    let won = round.on_reply("A".to_string(), 502, "bad gateway".to_string(), &store).unwrap();
    assert_eq!(won.status, 502);
    assert_eq!(won.body, "bad gateway");
    assert!(round.on_reply("B".to_string(), 200, slot_body(9), &store).is_none());
    assert!(round.finish(&mut store).is_none());
    assert!(store.hosts().is_empty());
}

#[test]
fn replay_gives_same_quarantine() {
    let replies = [("A", 40u64), ("B", 10u64), ("C", 38u64)];
    let mut store = QuarantineSet::new();
    let mut first_round = Round::new();
    for (host, slot) in replies.iter() {
        first_round.on_reply(host.to_string(), 200, slot_body(*slot), &store);
    }
    assert!(first_round.finish(&mut store).is_none());
    let after_first = store.hosts();
    let mut second_round = Round::new();
    for (host, slot) in replies.iter() {
        second_round.on_reply(host.to_string(), 200, slot_body(*slot), &store);
    }
    assert!(second_round.finish(&mut store).is_none());
    assert_eq!(after_first, vec!["B".to_string()]);
    assert_eq!(store.hosts(), after_first);
}

#[test]
fn end_to_end_three_backends() {
    let mut store = QuarantineSet::new();
    let mut round = Round::new();
    let won = round.on_reply("h50".to_string(), 200, slot_body(50), &store).unwrap();
    assert_eq!(won.body, slot_body(50));
    assert!(round.on_reply("h30".to_string(), 200, slot_body(30), &store).is_none());
    assert!(round.on_reply("h48".to_string(), 200, slot_body(48), &store).is_none());
    assert!(round.finish(&mut store).is_none());
    assert_eq!(store.hosts(), vec!["h30".to_string()]);

    // Next round: the quarantined host answers first and is passed over.
    let mut next = Round::new();
    assert!(next.on_reply("h30".to_string(), 200, slot_body(31), &store).is_none());
    let won = next.on_reply("h48".to_string(), 201, slot_body(49), &store).unwrap();
    assert_eq!(won.status, 201);
    assert_eq!(won.body, slot_body(49));
    assert!(next.on_reply("h50".to_string(), 200, slot_body(51), &store).is_none());
    assert!(next.finish(&mut store).is_none());
    assert_eq!(store.hosts(), vec!["h30".to_string()]);
}

#[test]
fn record_reply_takes_given_values() {
    let mut store = QuarantineSet::new();
    let mut round = Round::new();
    assert!(round.record_reply("A".to_string(), 200, "x".to_string(), Some(100), true).is_none());
    let won = round.record_reply("B".to_string(), 200, "y".to_string(), None, false).unwrap();
    assert_eq!(won.body, "y");
    assert!(round.record_reply("C".to_string(), 200, "z".to_string(), Some(90), false).is_none());
    assert!(round.finish(&mut store).is_none());
    assert_eq!(store.hosts(), vec!["C".to_string()]);
}

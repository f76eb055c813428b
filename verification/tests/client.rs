use movement_sync::client::{Client, Sighting, VisualPlayer};
use movement_sync::presentation::{Phase, Role};
use movement_sync::protocol::{ClientMovementIntent, LocalPlayer, Player, Snapshot, YourClientId};
use movement_sync::vector::{Vec2, UNIT};

fn snapshot(network_id: u64, x: i64, y: i64) -> Snapshot {
    Snapshot { player: Player { network_id }, position: Vec2 { x, y } }
}

#[test]
fn new_client_is_unidentified() {
    let client = Client::new();
    assert_eq!(client.phase(), Phase::Unidentified);
    assert_eq!(client.local_player(), None);
    assert!(client.visuals().is_empty());
}

#[test]
fn unidentified_client_sends_no_intents() {
    let mut client = Client::new();
    assert_eq!(client.intent(Vec2 { x: UNIT, y: 0 }), None);
    client.observe(snapshot(1, 0, 0));
    assert_eq!(client.intent(Vec2 { x: UNIT, y: 0 }), None);
    client.receive_id(YourClientId(2));
    assert_eq!(client.phase(), Phase::Unidentified);
    assert_eq!(client.intent(Vec2 { x: UNIT, y: 0 }), None);
}

#[test]
fn identity_then_matching_player_identifies() {
    let mut client = Client::new();
    assert_eq!(client.receive_id(YourClientId(5)), None);
    assert_eq!(client.phase(), Phase::Unidentified);
    assert_eq!(client.observe(snapshot(4, 1, 1)), Sighting { first: true, role: Role::Remote });
    assert_eq!(client.phase(), Phase::Unidentified);
    assert_eq!(client.observe(snapshot(5, 0, 0)), Sighting { first: true, role: Role::Local });
    assert_eq!(client.phase(), Phase::Identified);
    assert_eq!(client.local_player(), Some(Player { network_id: 5 }));
    assert_eq!(client.marker(Player { network_id: 5 }), Some(LocalPlayer));
    assert_eq!(client.marker(Player { network_id: 4 }), None);
}

#[test]
fn matching_player_then_identity_identifies() {
    let mut client = Client::new();
    assert_eq!(client.observe(snapshot(5, 0, 0)), Sighting { first: true, role: Role::Remote });
    assert_eq!(client.marker(Player { network_id: 5 }), None);
    assert_eq!(client.receive_id(YourClientId(5)), Some(Player { network_id: 5 }));
    assert_eq!(client.phase(), Phase::Identified);
    assert_eq!(client.marker(Player { network_id: 5 }), Some(LocalPlayer));
}

#[test]
fn local_marker_is_assigned_once() {
    let mut client = Client::new();
    client.observe(snapshot(1, 0, 0));
    client.observe(snapshot(2, 0, 0));
    assert_eq!(client.receive_id(YourClientId(1)), Some(Player { network_id: 1 }));
    assert_eq!(client.receive_id(YourClientId(2)), None);
    assert_eq!(client.receive_id(YourClientId(1)), None);
    client.observe(snapshot(2, 9, 9));
    client.observe(snapshot(3, 0, 0));
    assert_eq!(client.local_player(), Some(Player { network_id: 1 }));
    let marked: Vec<u64> = client
        .visuals()
        .iter()
        .filter(|v| v.role == Role::Local)
        .map(|v| v.player_id)
        .collect();
    assert_eq!(marked, vec![1]);
    assert_eq!(client.marker(Player { network_id: 2 }), None);
    assert_eq!(client.marker(Player { network_id: 3 }), None);
}

#[test]
fn identity_is_fixed_by_the_first_announcement() {
    let mut client = Client::new();
    assert_eq!(client.identity(), None);
    client.receive_id(YourClientId(8));
    assert_eq!(client.identity(), Some(8));
    client.receive_id(YourClientId(9));
    assert_eq!(client.identity(), Some(8));
}

#[test]
fn marker_of_a_player_not_shown_is_absent() {
    let mut client = Client::new();
    client.receive_id(YourClientId(8));
    assert_eq!(client.marker(Player { network_id: 8 }), None);
    assert_eq!(client.local_player(), None);
}

#[test]
fn identified_client_sends_one_intent_per_sample() {
    let mut client = Client::new();
    client.receive_id(YourClientId(1));
    client.observe(snapshot(1, 0, 0));
    let sample = Vec2 { x: -UNIT, y: UNIT / 2 };
    assert_eq!(client.intent(sample), Some(ClientMovementIntent(sample)));
    assert_eq!(client.intent(Vec2 { x: 0, y: 0 }), Some(ClientMovementIntent(Vec2 { x: 0, y: 0 })));
}

#[test]
fn observation_creates_then_updates() {
    let mut client = Client::new();
    assert_eq!(client.position(3), None);
    assert!(client.observe(snapshot(3, 10, 20)).first);
    assert_eq!(client.position(3), Some(Vec2 { x: 10, y: 20 }));
    assert!(!client.observe(snapshot(3, 11, 19)).first);
    assert_eq!(client.position(3), Some(Vec2 { x: 11, y: 19 }));
    assert_eq!(client.visuals().len(), 1);
}

#[test]
fn redelivered_snapshots_change_nothing() {
    let log = [snapshot(1, 5, 5), snapshot(2, 7, 7), snapshot(1, 6, 5), snapshot(2, 7, 8)];
    let mut once = Client::new();
    for s in log {
        once.observe(s);
    }
    let mut often = Client::new();
    for (i, s) in log.into_iter().enumerate() {
        for _ in 0..(i + 1) * 3 {
            often.observe(s);
        }
    }
    assert_eq!(once.visuals(), often.visuals());
    assert_eq!(often.position(1), Some(Vec2 { x: 6, y: 5 }));
    assert_eq!(often.position(2), Some(Vec2 { x: 7, y: 8 }));
    for s in log {
        often.observe(s);
    }
    assert_eq!(once.visuals(), often.visuals());
}

#[test]
fn visuals_list_every_player_with_its_role() {
    let mut client = Client::new();
    client.receive_id(YourClientId(2));
    client.observe(snapshot(1, 1, 0));
    client.observe(snapshot(2, 2, 0));
    let mut shown = client.visuals();
    shown.sort_by_key(|v| v.player_id);
    assert_eq!(
        shown,
        vec![
            VisualPlayer { player_id: 1, position: Vec2 { x: 1, y: 0 }, role: Role::Remote },
            VisualPlayer { player_id: 2, position: Vec2 { x: 2, y: 0 }, role: Role::Local },
        ]
    );
}

#[test]
fn only_remote_players_are_smoothed() {
    assert!(Role::Remote.smoothed());
    assert!(!Role::Local.smoothed());
}

use movement_sync::movement::{integrate, tick_delta, MICROS_PER_SECOND, SPEED, TICK_MICROS};
use movement_sync::protocol::{ClientMovementIntent, Player, Snapshot};
use movement_sync::server::{ConnectError, Server};
use movement_sync::vector::{Vec2, UNIT};
use movement_sync::world::Received;

fn units(v: i64) -> f64 {
    v as f64 / UNIT as f64
}

#[test]
fn new_server_has_no_players() {
    let server = Server::new();
    assert_eq!(server.len(), 0);
    assert!(server.snapshots().is_empty());
    assert_eq!(server.position(1), None);
}

#[test]
fn connect_creates_player_at_origin() {
    let mut server = Server::new();
    assert_eq!(server.connect(Some(42)), Ok(Player { network_id: 42 }));
    assert_eq!(server.len(), 1);
    assert_eq!(server.position(42), Some(Vec2 { x: 0, y: 0 }));
    assert_eq!(server.input(42), Some(Vec2 { x: 0, y: 0 }));
}

#[test]
fn connect_without_identifier_creates_nothing() {
    let mut server = Server::new();
    assert_eq!(server.connect(None), Err(ConnectError::Unresolved));
    assert_eq!(server.len(), 0);
}

#[test]
fn connect_twice_keeps_one_player() {
    let mut server = Server::new();
    assert_eq!(server.connect(Some(7)), Ok(Player { network_id: 7 }));
    server.receive(7, ClientMovementIntent(Vec2 { x: UNIT, y: 0 }));
    server.tick(TICK_MICROS);
    assert_eq!(server.connect(Some(7)), Err(ConnectError::AlreadyConnected));
    assert_eq!(server.len(), 1);
    assert_eq!(server.position(7), Some(Vec2 { x: 102_400, y: 0 }));
    assert_eq!(server.input(7), Some(Vec2 { x: UNIT, y: 0 }));
}

#[test]
fn network_ids_are_unique_among_players() {
    let mut server = Server::new();
    for id in [3u64, 1, 3, 2, 1, 3] {
        let _ = server.connect(Some(id));
    }
    let mirrored = server.snapshots();
    assert_eq!(mirrored.len(), 3);
    for i in 0..mirrored.len() {
        for j in (i + 1)..mirrored.len() {
            assert_ne!(mirrored[i].player.network_id, mirrored[j].player.network_id);
        }
    }
    assert_eq!(server.len(), 3);
}

#[test]
fn last_intent_before_a_tick_wins() {
    let mut server = Server::new();
    server.connect(Some(1)).unwrap();
    assert!(server.receive(1, ClientMovementIntent(Vec2 { x: 0, y: UNIT })));
    assert!(server.receive(1, ClientMovementIntent(Vec2 { x: -UNIT, y: -UNIT })));
    assert!(server.receive(1, ClientMovementIntent(Vec2 { x: UNIT, y: 0 })));
    assert_eq!(server.position(1), Some(Vec2 { x: 0, y: 0 }));
    server.tick(TICK_MICROS);
    assert_eq!(server.position(1), Some(Vec2 { x: 102_400, y: 0 }));
}

#[test]
fn intents_of_other_players_do_not_interfere() {
    let mut server = Server::new();
    server.connect(Some(1)).unwrap();
    server.connect(Some(2)).unwrap();
    server.receive(1, ClientMovementIntent(Vec2 { x: UNIT, y: 0 }));
    server.receive(2, ClientMovementIntent(Vec2 { x: 0, y: -UNIT }));
    server.receive(1, ClientMovementIntent(Vec2 { x: 0, y: UNIT }));
    server.tick(TICK_MICROS);
    assert_eq!(server.position(1), Some(Vec2 { x: 0, y: 102_400 }));
    assert_eq!(server.position(2), Some(Vec2 { x: 0, y: -102_400 }));
}

#[test]
fn intent_stays_in_force_until_replaced() {
    let mut server = Server::new();
    server.connect(Some(1)).unwrap();
    server.receive(1, ClientMovementIntent(Vec2 { x: UNIT, y: 0 }));
    server.tick(TICK_MICROS);
    server.tick(TICK_MICROS);
    assert_eq!(server.position(1), Some(Vec2 { x: 204_800, y: 0 }));
    server.receive(1, ClientMovementIntent(Vec2 { x: 0, y: 0 }));
    server.tick(TICK_MICROS);
    assert_eq!(server.position(1), Some(Vec2 { x: 204_800, y: 0 }));
}

#[test]
fn intent_of_unknown_sender_is_dropped() {
    let mut server = Server::new();
    server.connect(Some(1)).unwrap();
    assert!(!server.receive(9, ClientMovementIntent(Vec2 { x: UNIT, y: UNIT })));
    server.tick(TICK_MICROS);
    assert_eq!(server.len(), 1);
    assert_eq!(server.position(9), None);
    assert_eq!(server.position(1), Some(Vec2 { x: 0, y: 0 }));
}

#[test]
fn position_update_law_on_one_tick() {
    let moved = integrate(Vec2 { x: 0, y: 0 }, Vec2 { x: UNIT, y: 0 }, TICK_MICROS);
    assert_eq!(moved, Vec2 { x: 102_400, y: 0 });
    assert_eq!(units(moved.x), 1.5625);
    assert_eq!(units(moved.y), 0.0);
    assert_eq!(SPEED, 100);
    assert_eq!(MICROS_PER_SECOND / TICK_MICROS as i64, 64);
}

#[test]
fn position_update_law_adds_to_the_position() {
    let start = Vec2 { x: 5 * UNIT, y: -3 * UNIT };
    let moved = integrate(start, Vec2 { x: -UNIT / 2, y: UNIT / 4 }, 1_000_000);
    assert_eq!(moved, Vec2 { x: 5 * UNIT - 50 * UNIT, y: -3 * UNIT + 25 * UNIT });
}

#[test]
fn direction_is_applied_as_given() {
    let moved = integrate(Vec2 { x: 0, y: 0 }, Vec2 { x: 3 * UNIT, y: 4 * UNIT }, TICK_MICROS);
    assert_eq!(moved, Vec2 { x: 307_200, y: 409_600 });
}

#[test]
fn travel_rounds_toward_zero_both_ways() {
    let right = integrate(Vec2 { x: 0, y: 0 }, Vec2 { x: 1, y: 0 }, 19_999);
    let left = integrate(Vec2 { x: 0, y: 0 }, Vec2 { x: -1, y: 0 }, 19_999);
    assert_eq!(right, Vec2 { x: 1, y: 0 });
    assert_eq!(left, Vec2 { x: -1, y: 0 });
    let short = integrate(Vec2 { x: 0, y: 0 }, Vec2 { x: -1, y: 1 }, 9_999);
    assert_eq!(short, Vec2 { x: 0, y: 0 });
}

#[test]
fn zero_delta_moves_nothing() {
    let start = Vec2 { x: 17, y: -4 };
    assert_eq!(integrate(start, Vec2 { x: i64::MAX, y: i64::MIN }, 0), start);
}

#[test]
fn position_saturates_at_the_coordinate_range() {
    let far = Vec2 { x: i64::MAX - 5, y: i64::MIN + 5 };
    let moved = integrate(far, Vec2 { x: UNIT, y: -UNIT }, TICK_MICROS);
    assert_eq!(moved, Vec2 { x: i64::MAX, y: i64::MIN });
    let extreme = integrate(Vec2 { x: 0, y: 0 }, Vec2 { x: i64::MIN, y: i64::MAX }, u32::MAX);
    assert_eq!(extreme, Vec2 { x: i64::MIN, y: i64::MAX });
}

#[test]
fn disconnect_removes_the_player_for_good() {
    let mut server = Server::new();
    server.connect(Some(1)).unwrap();
    server.connect(Some(2)).unwrap();
    server.receive(1, ClientMovementIntent(Vec2 { x: UNIT, y: 0 }));
    assert!(server.disconnect(1));
    assert_eq!(server.position(1), None);
    assert!(!server.receive(1, ClientMovementIntent(Vec2 { x: UNIT, y: 0 })));
    server.tick(TICK_MICROS);
    assert_eq!(server.position(1), None);
    assert_eq!(server.input(1), None);
    assert_eq!(
        server.snapshots(),
        vec![Snapshot { player: Player { network_id: 2 }, position: Vec2 { x: 0, y: 0 } }]
    );
    assert!(!server.disconnect(1));
    assert_eq!(server.len(), 1);
}

#[test]
fn reconnect_after_disconnect_starts_at_the_origin() {
    let mut server = Server::new();
    server.connect(Some(1)).unwrap();
    server.receive(1, ClientMovementIntent(Vec2 { x: UNIT, y: UNIT }));
    server.tick(TICK_MICROS);
    server.disconnect(1);
    assert_eq!(server.connect(Some(1)), Ok(Player { network_id: 1 }));
    assert_eq!(server.position(1), Some(Vec2 { x: 0, y: 0 }));
    assert_eq!(server.input(1), Some(Vec2 { x: 0, y: 0 }));
}

#[test]
fn snapshots_mirror_positions_but_not_intents() {
    let mut server = Server::new();
    server.connect(Some(10)).unwrap();
    server.connect(Some(20)).unwrap();
    server.receive(20, ClientMovementIntent(Vec2 { x: 0, y: 2 * UNIT }));
    server.tick(1_000_000);
    let mut mirrored = server.snapshots();
    mirrored.sort_by_key(|s| s.player.network_id);
    assert_eq!(
        mirrored,
        vec![
            Snapshot { player: Player { network_id: 10 }, position: Vec2 { x: 0, y: 0 } },
            Snapshot { player: Player { network_id: 20 }, position: Vec2 { x: 0, y: 200 * UNIT } },
        ]
    );
}

#[test]
fn frame_applies_the_inbox_before_it_simulates() {
    let mut server = Server::new();
    server.connect(Some(1)).unwrap();
    server.connect(Some(2)).unwrap();
    let inbox = vec![
        Received { sender: 1, intent: ClientMovementIntent(Vec2 { x: 0, y: UNIT }) },
        Received { sender: 2, intent: ClientMovementIntent(Vec2 { x: -UNIT, y: 0 }) },
        Received { sender: 9, intent: ClientMovementIntent(Vec2 { x: UNIT, y: UNIT }) },
        Received { sender: 1, intent: ClientMovementIntent(Vec2 { x: UNIT, y: 0 }) },
    ];
    server.frame(&inbox, TICK_MICROS);
    assert_eq!(server.position(1), Some(Vec2 { x: 102_400, y: 0 }));
    assert_eq!(server.position(2), Some(Vec2 { x: -102_400, y: 0 }));
    assert_eq!(server.position(9), None);
    assert_eq!(server.len(), 2);
}

#[test]
fn frame_with_an_empty_inbox_keeps_the_intents_in_force() {
    let mut server = Server::new();
    server.connect(Some(1)).unwrap();
    server.frame(
        &vec![Received { sender: 1, intent: ClientMovementIntent(Vec2 { x: 0, y: -UNIT }) }],
        TICK_MICROS,
    );
    server.frame(&vec![], TICK_MICROS);
    assert_eq!(server.position(1), Some(Vec2 { x: 0, y: -204_800 }));
    assert_eq!(server.input(1), Some(Vec2 { x: 0, y: -UNIT }));
}

#[test]
fn frame_equals_receive_then_tick() {
    let inbox = vec![
        Received { sender: 5, intent: ClientMovementIntent(Vec2 { x: 3, y: 4 }) },
        Received { sender: 5, intent: ClientMovementIntent(Vec2 { x: UNIT / 3, y: -UNIT / 7 }) },
    ];
    let mut framed = Server::new();
    framed.connect(Some(5)).unwrap();
    framed.frame(&inbox, 33_333);
    let mut stepped = Server::new();
    stepped.connect(Some(5)).unwrap();
    for received in &inbox {
        stepped.receive(received.sender, received.intent);
    }
    stepped.tick(33_333);
    assert_eq!(framed.snapshots(), stepped.snapshots());
    assert_eq!(framed.position(5), Some(Vec2 { x: 72_815, y: -31_206 }));
}

#[test]
fn tick_delta_is_the_elapsed_time_up_to_the_longest_delta() {
    assert_eq!(tick_delta(0), 0);
    assert_eq!(tick_delta(15_625), TICK_MICROS);
    assert_eq!(tick_delta(u32::MAX as u128), u32::MAX);
    assert_eq!(tick_delta(u32::MAX as u128 + 1), u32::MAX);
    assert_eq!(tick_delta(u128::MAX), u32::MAX);
}

#[test]
fn steady_course_adds_up_tick_by_tick() {
    let mut server = Server::new();
    server.connect(Some(1)).unwrap();
    server.receive(1, ClientMovementIntent(Vec2 { x: -3, y: UNIT + 1 }));
    for _ in 0..1000 {
        server.tick(12_345);
    }
    let one = integrate(Vec2 { x: 0, y: 0 }, Vec2 { x: -3, y: UNIT + 1 }, 12_345);
    assert_eq!(one, Vec2 { x: -3, y: 80_905 });
    assert_eq!(server.position(1), Some(Vec2 { x: 1000 * one.x, y: 1000 * one.y }));
}

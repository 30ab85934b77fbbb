use snake::direction::Direction;
use snake::game::{GameError, GameResult, SnakeGame};
use snake::packet::{Opcode, Packet};
use snake::util::RandomSource;

/// Pass a packet over an in-memory "wire": encode, then decode.
fn over_wire(p: &Packet) -> Packet {
    Packet::decode(&p.encode()).expect("a packet the library encoded must decode")
}

#[test]
fn heads_crash_is_a_draw() {
    let mut game = SnakeGame::from_layout(
        vec![(3, 3)],
        Direction::Right,
        Some((vec![(3, 5)], Direction::Left)),
        (0, 0),
    );
    let mut rng = RandomSource::new(1);
    let (result, sent) = game.update(&mut rng);
    match result {
        Some(GameResult::Draw(m)) => assert_eq!(m, "heads crash"),
        _ => panic!("expected a draw"),
    }
    assert_eq!(sent, None);
    assert_eq!(game.player().head(), (3, 4));
    assert_eq!(game.opponent().unwrap().head(), (3, 4));
    assert_eq!(game.board().value((3, 4)), 'x');
    assert_eq!(game.board().value((3, 3)), ' ');
    assert_eq!(game.board().value((3, 5)), ' ');
}

#[test]
fn running_into_a_body_is_a_loss() {
    // the player wraps from (0, 0) upward to (7, 0), where an opponent
    // segment still sits
    let mut game = SnakeGame::from_layout(
        vec![(0, 0), (0, 1)],
        Direction::Up,
        Some((vec![(7, 0), (6, 0)], Direction::Left)),
        (4, 4),
    );
    let mut rng = RandomSource::new(1);
    let (result, sent) = game.update(&mut rng);
    match result {
        Some(GameResult::Lose(m)) => assert_eq!(m, "player crash"),
        _ => panic!("expected a loss"),
    }
    assert_eq!(sent, None);
    assert_eq!(game.player().head(), (7, 0));
    assert_eq!(game.board().value((7, 0)), 'x');
    // the opponent's head is re-marked for the final frame
    assert_eq!(game.board().value((7, 7)), '-');
}

#[test]
fn reaching_the_target_grows_the_player() {
    let mut game =
        SnakeGame::from_layout(vec![(2, 2)], Direction::Right, None, (2, 3));
    let mut rng = RandomSource::new(42);
    let (result, sent) = game.update(&mut rng);
    assert!(result.is_none());
    assert_eq!(game.player().size(), 2);
    assert_eq!(game.player().head(), (2, 3));
    // the previous tail cell keeps its player mark
    assert_eq!(game.board().value((2, 2)), '+');
    assert_eq!(game.board().value((2, 3)), '+');
    // a new target was placed, distinct from the consumed one
    let nt = sent.expect("a new target must be placed");
    assert_ne!(nt, (2, 3));
    assert_eq!(game.board().value(nt), 'o');
    assert_eq!(game.target_len(), 1);
    assert_eq!(game.live_target(), nt);
}

#[test]
fn opponent_growth_consumes_the_target() {
    let mut game = SnakeGame::from_layout(
        vec![(0, 0)],
        Direction::Right,
        Some((vec![(5, 5)], Direction::Right)),
        (5, 6),
    );
    let mut rng = RandomSource::new(1);
    let (result, sent) = game.update(&mut rng);
    assert!(result.is_none());
    assert_eq!(sent, None);
    assert_eq!(game.opponent().unwrap().size(), 2);
    assert_eq!(game.opponent().unwrap().head(), (5, 6));
    assert_eq!(game.board().value((5, 6)), '-');
    assert_eq!(game.board().value((5, 5)), '-');
    // the live target was consumed; the peer will broadcast the next one
    assert_eq!(game.target_len(), 0);
    // the player did not grow
    assert_eq!(game.player().size(), 1);
}

#[test]
fn tick_barrier_queues_events_until_sync() {
    let mut client = SnakeGame::new_multiplayer(false);
    let mut server = SnakeGame::new_multiplayer(true);
    client.begin_tick();
    server.begin_tick();
    assert_eq!(client.tick_id(), 1);
    assert_eq!(server.tick_id(), 1);

    // the client turns downward and broadcasts the change, then its sync
    client.control(true, Direction::Down);
    let ctrl = SnakeGame::control_packet(Direction::Down);
    let client_sync = client.sync_packet();
    let server_sync = server.sync_packet();

    // the server receives the direction change, then the sync token
    assert_eq!(server.absorb(over_wire(&ctrl)), Ok(false));
    assert_eq!(server.absorb(over_wire(&client_sync)), Ok(true));
    // the client receives only the server's sync token
    assert_eq!(client.absorb(over_wire(&server_sync)), Ok(true));

    // each pending queue holds exactly the non-sync packets the other
    // side sent before its sync
    assert_eq!(server.pending_len(), 1);
    assert_eq!(client.pending_len(), 0);
    let queued = server.pop_pending().unwrap();
    assert_eq!(queued.opcode(), Opcode::NewDirection);
    assert_eq!(queued.data().as_slice(), &[1]);
    assert_eq!(server.process(&queued), Ok(()));
    assert_eq!(server.pending_len(), 0);

    // both peers now simulate the tick with the same inputs
    let mut rng_c = RandomSource::new(7);
    let mut rng_s = RandomSource::new(7);
    assert!(client.update(&mut rng_c).0.is_none());
    assert!(server.update(&mut rng_s).0.is_none());
    assert_eq!(client.player().head(), (2, 1));
    assert_eq!(server.opponent().unwrap().head(), (2, 1));
    assert_eq!(server.player().head(), (6, 5));
    assert_eq!(client.opponent().unwrap().head(), (6, 5));
}

#[test]
fn mismatched_sync_token_is_fatal() {
    let mut client = SnakeGame::new_multiplayer(false);
    let mut server = SnakeGame::new_multiplayer(true);
    client.begin_tick();
    server.begin_tick();
    server.begin_tick();
    let client_sync = client.sync_packet();
    assert_eq!(
        server.absorb(over_wire(&client_sync)),
        Err(GameError::ProtocolViolation)
    );
}

#[test]
fn short_sync_token_is_malformed() {
    let mut server = SnakeGame::new_multiplayer(true);
    let mut p = Packet::new(Opcode::Sync, 3);
    p.push_data(&[0, 0, 1]);
    assert_eq!(server.absorb(p), Err(GameError::MalformedPacket));
}

#[test]
fn process_rejects_sync_packets() {
    let mut server = SnakeGame::new_multiplayer(true);
    let sync = server.sync_packet();
    assert_eq!(server.process(&sync), Err(GameError::ProtocolViolation));
}

#[test]
fn process_rejects_bad_direction_code() {
    let mut server = SnakeGame::new_multiplayer(true);
    let mut p = Packet::new(Opcode::NewDirection, 1);
    p.push_data(&[4]);
    assert_eq!(server.process(&p), Err(GameError::MalformedPacket));
    let empty = Packet::new(Opcode::NewDirection, 0);
    assert_eq!(server.process(&empty), Err(GameError::MalformedPacket));
}

#[test]
fn process_rejects_target_off_the_grid() {
    let mut server = SnakeGame::new_multiplayer(true);
    let mut p = Packet::new(Opcode::NewTarget, 2);
    p.push_data(&[8, 0]);
    assert_eq!(server.process(&p), Err(GameError::MalformedPacket));
    let mut p = Packet::new(Opcode::NewTarget, 2);
    p.push_data(&[0]);
    assert_eq!(server.process(&p), Err(GameError::MalformedPacket));
}

#[test]
fn process_appends_received_target() {
    let mut server = SnakeGame::new_multiplayer(true);
    let p = SnakeGame::target_packet((3, 4));
    assert_eq!(server.process(&over_wire(&p)), Ok(()));
    assert_eq!(server.target_len(), 2);
    // the live target is still the old front of the queue
    assert_eq!(server.live_target(), (4, 4));
}

#[test]
fn process_steers_the_opponent() {
    let mut server = SnakeGame::new_multiplayer(true);
    // the opponent (the client's snake) starts at (1, 1) heading Right
    let p = SnakeGame::control_packet(Direction::Down);
    assert_eq!(server.process(&over_wire(&p)), Ok(()));
    let mut rng = RandomSource::new(1);
    assert!(server.update(&mut rng).0.is_none());
    assert_eq!(server.opponent().unwrap().head(), (2, 1));
}

#[test]
fn multiplayer_openings_mirror_each_other() {
    let client = SnakeGame::new_multiplayer(false);
    let server = SnakeGame::new_multiplayer(true);
    assert!(client.is_multiplayer());
    assert!(server.is_multiplayer());
    assert_eq!(client.player().head(), server.opponent().unwrap().head());
    assert_eq!(server.player().head(), client.opponent().unwrap().head());
    assert_eq!(client.player().head(), (1, 1));
    assert_eq!(server.player().head(), (6, 6));
    assert_eq!(client.live_target(), (4, 4));
    assert_eq!(server.live_target(), (4, 4));
    assert_eq!(client.board().value((1, 1)), '+');
    assert_eq!(client.board().value((6, 6)), '-');
    assert_eq!(client.board().value((4, 4)), 'o');
    assert_eq!(server.board().value((6, 6)), '+');
    assert_eq!(server.board().value((1, 1)), '-');
}

#[test]
fn singleplayer_opening_is_reproducible() {
    let mut rng_a = RandomSource::new(7);
    let mut rng_b = RandomSource::new(7);
    let a = SnakeGame::new_singleplayer(&mut rng_a);
    let b = SnakeGame::new_singleplayer(&mut rng_b);
    assert!(!a.is_multiplayer());
    assert_eq!(a.player().head(), b.player().head());
    assert_eq!(a.live_target(), b.live_target());
    assert_eq!(a.board().draw(), b.board().draw());
    let head = a.player().head();
    let target = a.live_target();
    assert_ne!(head, target);
    assert_eq!(a.board().value(head), '+');
    assert_eq!(a.board().value(target), 'o');
}

#[test]
fn sync_packet_carries_the_tick_counter() {
    let mut server = SnakeGame::new_multiplayer(true);
    server.begin_tick();
    let p = server.sync_packet();
    assert_eq!(p.opcode(), Opcode::Sync);
    assert_eq!(p.data().as_slice(), &[0, 0, 0, 0, 0, 0, 0, 1]);
    let t = SnakeGame::target_packet((3, 4));
    assert_eq!(t.opcode(), Opcode::NewTarget);
    assert_eq!(t.data().as_slice(), &[3, 4]);
}

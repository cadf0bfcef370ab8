use game::protocol::ProtocolError;
use game::registry::ChannelManager;
use tokio::sync::mpsc::{unbounded_channel, UnboundedReceiver, UnboundedSender};
use tungstenite::Message;

type Rx = UnboundedReceiver<Message>;
type Tx = UnboundedSender<Message>;

fn pipe() -> (Tx, Rx) {
    unbounded_channel()
}

fn next_text(rx: &mut Rx) -> String {
    let msg = rx.try_recv().expect("expected a queued frame");
    msg.to_text().expect("expected a text frame").to_string()
}

fn assert_empty(rx: &mut Rx) {
    assert!(rx.try_recv().is_err(), "expected no queued frame");
}

#[test]
fn new_registry_has_no_session_and_a_fresh_game() {
    let mgr = ChannelManager::new();
    assert!(mgr.senders.is_none());
    assert_eq!(mgr.game.current_turn, 'x');
    assert_eq!(mgr.game.player_x, "");
    assert_eq!(mgr.game.player_o, "");
    for cell in &mgr.game.board {
        assert!(cell.is_none());
    }
}

#[test]
fn create_channel_is_idempotent() {
    let mut mgr = ChannelManager::new();
    mgr.create_channel();
    assert_eq!(mgr.senders.as_ref().map(|v| v.len()), Some(0));
    mgr.create_channel();
    assert_eq!(mgr.senders.as_ref().map(|v| v.len()), Some(0));
}

#[test]
fn join_without_session_is_a_no_op() {
    let mut mgr = ChannelManager::new();
    let (tx, _rx) = pipe();
    mgr.add_sender_to_channel(tx, "alice");
    assert!(mgr.senders.is_none());
    assert_eq!(mgr.game.player_x, "");
}

#[test]
fn joins_record_player_x_then_player_o() {
    let mut mgr = ChannelManager::new();
    mgr.create_channel();
    let (tx1, _rx1) = pipe();
    mgr.add_sender_to_channel(tx1, "alice");
    assert_eq!(mgr.game.player_x, "alice");
    assert_eq!(mgr.game.player_o, "");
    let (tx2, _rx2) = pipe();
    mgr.add_sender_to_channel(tx2, "bob");
    assert_eq!(mgr.game.player_x, "alice");
    assert_eq!(mgr.game.player_o, "bob");
    assert_eq!(mgr.senders.as_ref().map(|v| v.len()), Some(2));
}

#[test]
fn third_join_clears_the_roster_and_the_next_join_is_first() {
    let mut mgr = ChannelManager::new();
    mgr.create_channel();
    let (tx1, _rx1) = pipe();
    let (tx2, _rx2) = pipe();
    let (tx3, _rx3) = pipe();
    mgr.add_sender_to_channel(tx1, "alice");
    mgr.add_sender_to_channel(tx2, "bob");
    mgr.add_sender_to_channel(tx3, "carol");
    // The overflowing join wipes the roster and records nobody.
    assert_eq!(mgr.senders.as_ref().map(|v| v.len()), Some(0));
    assert_eq!(mgr.game.player_x, "alice");
    assert_eq!(mgr.game.player_o, "bob");
    // The join after the wipe lands as a first joiner.
    let (tx4, _rx4) = pipe();
    mgr.add_sender_to_channel(tx4, "dave");
    assert_eq!(mgr.senders.as_ref().map(|v| v.len()), Some(1));
    assert_eq!(mgr.game.player_x, "dave");
    assert_eq!(mgr.game.player_o, "bob");
}

#[test]
fn broadcast_reaches_every_participant_in_join_order() {
    let mut mgr = ChannelManager::new();
    mgr.create_channel();
    let (tx1, mut rx1) = pipe();
    let (tx2, mut rx2) = pipe();
    mgr.add_sender_to_channel(tx1, "alice");
    mgr.add_sender_to_channel(tx2, "bob");
    mgr.broadcast("hello");
    assert_eq!(next_text(&mut rx1), "hello");
    assert_eq!(next_text(&mut rx2), "hello");
    assert_empty(&mut rx1);
    assert_empty(&mut rx2);
}

#[test]
fn broadcast_survives_a_gone_receiver() {
    let mut mgr = ChannelManager::new();
    mgr.create_channel();
    let (tx1, rx1) = pipe();
    let (tx2, mut rx2) = pipe();
    mgr.add_sender_to_channel(tx1, "alice");
    mgr.add_sender_to_channel(tx2, "bob");
    drop(rx1);
    mgr.broadcast("still here");
    assert_eq!(next_text(&mut rx2), "still here");
}

#[test]
fn start_and_two_moves_play_out_as_broadcast_frames() {
    let mut mgr = ChannelManager::new();
    let (txa, mut rxa) = pipe();
    let (txb, mut rxb) = pipe();

    assert_eq!(mgr.handle_text(&txa, "START:alice"), Ok(()));
    assert_eq!(mgr.handle_text(&txb, "START:bob"), Ok(()));
    assert_eq!(mgr.game.player_x, "alice");
    assert_eq!(mgr.game.player_o, "bob");
    assert_empty(&mut rxa);
    assert_empty(&mut rxb);

    assert_eq!(mgr.handle_text(&txa, "MOVE:alice:0"), Ok(()));
    let expected = "alice : 0 : \n| x |   |   | \n|   |   |   | \n|   |   |   | \n";
    assert_eq!(next_text(&mut rxa), expected);
    assert_eq!(next_text(&mut rxb), expected);
    assert_eq!(mgr.game.current_turn, 'o');

    assert_eq!(mgr.handle_text(&txb, "MOVE:bob:0"), Ok(()));
    let echoed = "bob : 0 : \n| x |   |   | \n|   |   |   | \n|   |   |   | \n";
    assert_eq!(next_text(&mut rxa), "Already marked");
    assert_eq!(next_text(&mut rxa), echoed);
    assert_eq!(next_text(&mut rxb), "Already marked");
    assert_eq!(next_text(&mut rxb), echoed);
    assert_eq!(mgr.game.current_turn, 'o');
}

#[test]
fn a_row_of_x_broadcasts_the_winner() {
    let mut mgr = ChannelManager::new();
    let (txa, mut rxa) = pipe();
    let (txb, _rxb) = pipe();

    assert_eq!(mgr.handle_text(&txa, "START:alice"), Ok(()));
    assert_eq!(mgr.handle_text(&txb, "START:bob"), Ok(()));

    for frame in ["MOVE:alice:0", "MOVE:bob:3", "MOVE:alice:1", "MOVE:bob:4"] {
        assert_eq!(mgr.handle_text(&txa, frame), Ok(()));
        // Each accepted move broadcasts exactly the board frame.
        let _board = next_text(&mut rxa);
        assert_empty(&mut rxa);
    }

    assert_eq!(mgr.handle_text(&txa, "MOVE:alice:2"), Ok(()));
    assert_eq!(next_text(&mut rxa), "The winner is alice");
    assert_eq!(
        next_text(&mut rxa),
        "alice : 2 : \n| x | x | x | \n| o | o |   | \n|   |   |   | \n"
    );
}

#[test]
fn unknown_username_acts_as_x() {
    let mut mgr = ChannelManager::new();
    let (txa, mut rxa) = pipe();
    let (txb, _rxb) = pipe();
    assert_eq!(mgr.handle_text(&txa, "START:alice"), Ok(()));
    assert_eq!(mgr.handle_text(&txb, "START:bob"), Ok(()));

    assert_eq!(mgr.handle_text(&txa, "MOVE:charlie:4"), Ok(()));
    assert_eq!(mgr.game.board[4], Some('x'));
    assert_eq!(mgr.game.current_turn, 'o');
    assert_eq!(
        next_text(&mut rxa),
        "charlie : 4 : \n|   |   |   | \n|   | x |   | \n|   |   |   | \n"
    );
}

#[test]
fn wrong_turn_is_broadcast_and_the_turn_stays() {
    let mut mgr = ChannelManager::new();
    let (txa, mut rxa) = pipe();
    let (txb, _rxb) = pipe();
    assert_eq!(mgr.handle_text(&txa, "START:alice"), Ok(()));
    assert_eq!(mgr.handle_text(&txb, "START:bob"), Ok(()));

    assert_eq!(mgr.handle_text(&txb, "MOVE:bob:0"), Ok(()));
    assert_eq!(next_text(&mut rxa), "This is not your turn");
    assert_eq!(
        next_text(&mut rxa),
        "bob : 0 : \n|   |   |   | \n|   |   |   | \n|   |   |   | \n"
    );
    assert_eq!(mgr.game.current_turn, 'x');
}

#[test]
fn bad_cell_text_is_fatal_and_broadcasts_nothing() {
    let mut mgr = ChannelManager::new();
    let (txa, mut rxa) = pipe();
    assert_eq!(mgr.handle_text(&txa, "START:alice"), Ok(()));

    assert_eq!(
        mgr.handle_text(&txa, "MOVE:alice:abc"),
        Err(ProtocolError::MalformedMove)
    );
    assert_eq!(
        mgr.handle_text(&txa, "MOVE:alice"),
        Err(ProtocolError::MalformedMove)
    );
    assert_eq!(
        mgr.handle_text(&txa, "MOVE:alice:9"),
        Err(ProtocolError::CellOutOfRange)
    );
    assert_empty(&mut rxa);
    for cell in &mgr.game.board {
        assert!(cell.is_none());
    }
}

#[test]
fn unknown_frames_change_nothing() {
    let mut mgr = ChannelManager::new();
    let (txa, mut rxa) = pipe();
    assert_eq!(mgr.handle_text(&txa, "START:alice"), Ok(()));
    assert_eq!(mgr.handle_text(&txa, "LEAVE_GAME:alice"), Ok(()));
    assert_eq!(mgr.handle_text(&txa, "hello"), Ok(()));
    assert_empty(&mut rxa);
    assert_eq!(mgr.senders.as_ref().map(|v| v.len()), Some(1));
    assert_eq!(mgr.game.player_x, "alice");
}

use speed_game::card::create_deck;
use speed_game::game::GameState;
use speed_game::model::{PlayerAction, PlayerId};
use speed_game::session::Session;

const X: PlayerId = PlayerId(0x1111);
const Y: PlayerId = PlayerId(0x2222);
const Z: PlayerId = PlayerId(0x3333);

fn cards_in(game: &GameState) -> usize {
    let held: usize = game.players.iter().map(|p| p.hand.len() + p.draw_pile.len()).sum();
    let laid: usize = game.center_piles.iter().map(|p| p.len()).sum();
    game.deck.len() + held + laid
}

#[test]
fn new_session_is_empty() {
    let session = Session::new();
    assert!(session.connections.is_empty());
    assert_eq!(session.game, GameState::new());
}

#[test]
fn first_connection_waits() {
    let mut session = Session::new();
    let views = session.connect(X);
    assert!(views.is_empty());
    assert_eq!(session.connections, vec![X]);
    assert_eq!(session.game, GameState::new());
}

#[test]
fn second_connection_starts_the_game() {
    let mut session = Session::new();
    session.connect(X);
    let views = session.connect(Y);
    assert_eq!(session.connections, vec![X, Y]);
    assert!(session.game.game_started);
    assert_eq!(session.game.players.len(), 2);
    assert_eq!(session.game.players[0].id, Y);
    assert_eq!(session.game.players[1].id, X);
    assert_eq!(session.game.deck.len(), 10);
    assert_eq!(cards_in(&session.game), 52);
    assert_eq!(views.len(), 2);
    assert_eq!(views[0], session.game.create_player_view(X));
    assert_eq!(views[1], session.game.create_player_view(Y));
    assert_eq!(views[0].player_id, X);
    assert_eq!(views[0].hand, session.game.players[1].hand);
    assert_eq!(views[1].hand, session.game.players[0].hand);
    assert_eq!(views[0].opponent_hand_count, 5);
    assert_eq!(views[1].draw_pile_count, 15);
}

#[test]
fn third_connection_is_left_out() {
    let mut session = Session::new();
    session.connect(X);
    session.connect(Y);
    let game = session.game.clone();
    let views = session.connect(Z);
    assert!(views.is_empty());
    assert_eq!(session.connections, vec![X, Y]);
    assert_eq!(session.game, game);
    let views = session.handle_action(Z, PlayerAction::RequestNewCenterCards);
    assert!(views.is_empty());
    assert_eq!(session.game, game);
}

#[test]
fn action_is_broadcast_to_both() {
    let mut session = Session::new();
    session.connect(X);
    session.connect(Y);
    let views = session.handle_action(Y, PlayerAction::RequestNewCenterCards);
    assert_eq!(session.game.deck.len(), 8);
    assert_eq!(session.game.center_piles[0].len(), 2);
    assert_eq!(session.game.center_piles[1].len(), 2);
    assert_eq!(views.len(), 2);
    assert_eq!(views[0].player_id, X);
    assert_eq!(views[1].player_id, Y);
    assert_eq!(views[0], session.game.create_player_view(X));
    assert_eq!(views[1], session.game.create_player_view(Y));
    assert_eq!(views[0].center_piles, session.game.center_piles);
    assert_eq!(cards_in(&session.game), 52);
}

#[test]
fn disconnect_resets_the_game_for_the_survivor() {
    let mut session = Session::new();
    session.connect(X);
    session.connect(Y);
    let views = session.disconnect(X);
    assert_eq!(session.connections, vec![Y]);
    assert!(!session.game.game_started);
    assert_eq!(session.game.players.len(), 1);
    assert_eq!(session.game.players[0].id, Y);
    assert!(session.game.players[0].hand.is_empty());
    assert_eq!(session.game.deck, create_deck());
    assert_eq!(views.len(), 1);
    assert_eq!(views[0].player_id, Y);
    assert!(!views[0].game_started);
    assert_eq!(views[0].opponent_hand_count, 0);
}

#[test]
fn last_disconnect_sends_nothing() {
    let mut session = Session::new();
    session.connect(X);
    let views = session.disconnect(X);
    assert!(views.is_empty());
    assert!(session.connections.is_empty());
    assert_eq!(session.game, GameState::new());
}

#[test]
fn disconnect_of_a_stranger_still_resets() {
    let mut session = Session::new();
    session.connect(X);
    session.connect(Y);
    let views = session.disconnect(Z);
    assert_eq!(session.connections, vec![X, Y]);
    assert!(!session.game.game_started);
    assert_eq!(session.game.players.len(), 2);
    assert_eq!(views.len(), 2);
}

#[test]
fn survivor_and_newcomer_play_again() {
    let mut session = Session::new();
    session.connect(X);
    session.connect(Y);
    session.disconnect(X);
    let views = session.connect(Z);
    assert_eq!(session.connections, vec![Y, Z]);
    assert!(session.game.game_started);
    assert_eq!(session.game.players.len(), 2);
    assert_eq!(session.game.players[0].id, Y);
    assert_eq!(session.game.players[1].id, Z);
    assert_eq!(views.len(), 2);
    assert_eq!(views[0].hand, session.game.players[0].hand);
    assert_eq!(views[1].hand, session.game.players[1].hand);
    assert_eq!(cards_in(&session.game), 52);
}

#[test]
fn accepted_connections_get_identities_of_their_own() {
    let mut session = Session::new();
    let (first, views) = session.accept();
    assert!(views.is_empty());
    assert_eq!(session.connections, vec![first]);
    let (second, views) = session.accept();
    assert_ne!(first, second);
    assert_eq!(session.connections, vec![first, second]);
    assert_eq!(views.len(), 2);
    assert_eq!(views[0].player_id, first);
    assert_eq!(views[1].player_id, second);
    assert!(session.game.game_started);
    let (third, views) = session.accept();
    assert!(views.is_empty());
    assert_ne!(third, first);
    assert_ne!(third, second);
    assert_eq!(session.connections, vec![first, second]);
}

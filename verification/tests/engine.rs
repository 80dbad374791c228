use speed_game::card::{create_deck, Card, Rank, Suit};
use speed_game::game::{GameState, PlayerState, PlayerView};
use speed_game::model::{GameCommand, PlayerAction, PlayerId};
use std::collections::VecDeque;

const A: PlayerId = PlayerId(1);
const B: PlayerId = PlayerId(2);
const C: PlayerId = PlayerId(3);

fn card(suit: Suit, rank: Rank) -> Card {
    Card { suit, rank }
}

fn total_cards(game: &GameState) -> usize {
    let held: usize = game.players.iter().map(|p| p.hand.len() + p.draw_pile.len()).sum();
    let laid: usize = game.center_piles.iter().map(|p| p.len()).sum();
    game.deck.len() + held + laid
}

fn play(id: PlayerId, card_index: usize) -> GameCommand {
    GameCommand { player_id: id, action: PlayerAction::PlayCard { card_index } }
}

fn request(id: PlayerId) -> GameCommand {
    GameCommand { player_id: id, action: PlayerAction::RequestNewCenterCards }
}

/// A started game with chosen hands, draw piles and pile tops.
fn table(
    hand_a: Vec<Card>,
    draw_a: Vec<Card>,
    hand_b: Vec<Card>,
    draw_b: Vec<Card>,
    piles: Vec<Vec<Card>>,
    deck: Vec<Card>,
) -> GameState {
    GameState {
        players: vec![
            PlayerState { id: A, hand: hand_a, draw_pile: VecDeque::from(draw_a) },
            PlayerState { id: B, hand: hand_b, draw_pile: VecDeque::from(draw_b) },
        ],
        center_piles: piles,
        deck,
        game_started: true,
        winner: None,
    }
}

const ALL_RANKS: [Rank; 13] = [
    Rank::Ace,
    Rank::Two,
    Rank::Three,
    Rank::Four,
    Rank::Five,
    Rank::Six,
    Rank::Seven,
    Rank::Eight,
    Rank::Nine,
    Rank::Ten,
    Rank::Jack,
    Rank::Queen,
    Rank::King,
];

#[test]
fn ace_and_king_are_neighbours() {
    assert!(Rank::Ace.can_play_on(&Rank::King));
    assert!(Rank::King.can_play_on(&Rank::Ace));
}

#[test]
fn ranks_one_apart_are_neighbours() {
    assert!(Rank::Five.can_play_on(&Rank::Six));
    assert!(Rank::Six.can_play_on(&Rank::Five));
    assert!(!Rank::Seven.can_play_on(&Rank::Nine));
    assert!(!Rank::Two.can_play_on(&Rank::King));
    assert!(!Rank::Ace.can_play_on(&Rank::Queen));
}

#[test]
fn no_rank_plays_on_itself() {
    for r in ALL_RANKS.iter() {
        assert!(!r.can_play_on(r));
    }
}

#[test]
fn adjacency_on_every_pair() {
    for a in ALL_RANKS.iter() {
        for b in ALL_RANKS.iter() {
            let x = a.value() as i16;
            let y = b.value() as i16;
            let want = (x - y).abs() == 1 || (x - y).abs() == 12;
            assert_eq!(a.can_play_on(b), want);
            assert_eq!(a.can_play_on(b), b.can_play_on(a));
        }
    }
}

#[test]
fn rank_values_run_from_one_to_thirteen() {
    for (i, r) in ALL_RANKS.iter().enumerate() {
        assert_eq!(r.value() as usize, i + 1);
    }
}

#[test]
fn fresh_deck_is_ordered_by_suit_then_rank() {
    let deck = create_deck();
    assert_eq!(deck.len(), 52);
    assert_eq!(deck[0], card(Suit::Hearts, Rank::Ace));
    assert_eq!(deck[12], card(Suit::Hearts, Rank::King));
    assert_eq!(deck[13], card(Suit::Diamonds, Rank::Ace));
    assert_eq!(deck[30], card(Suit::Clubs, Rank::Five));
    assert_eq!(deck[39], card(Suit::Spades, Rank::Ace));
    assert_eq!(deck[51], card(Suit::Spades, Rank::King));
    for i in 0..52 {
        for j in (i + 1)..52 {
            assert_ne!(deck[i], deck[j]);
        }
    }
}

#[test]
fn new_engine_is_empty_and_holds_the_deck() {
    let game = GameState::new();
    assert!(game.players.is_empty());
    assert_eq!(game.center_piles, vec![Vec::<Card>::new(), Vec::<Card>::new()]);
    assert_eq!(game.deck, create_deck());
    assert!(!game.game_started);
    assert_eq!(game.winner, None);
    assert_eq!(total_cards(&game), 52);
}

#[test]
fn third_player_is_refused() {
    let mut game = GameState::new();
    assert!(game.add_player(A));
    assert!(game.add_player(B));
    let before = game.clone();
    assert!(!game.add_player(C));
    assert_eq!(game, before);
    assert_eq!(game.players.len(), 2);
    assert_eq!(game.players[0].id, A);
    assert_eq!(game.players[1].id, B);
}

#[test]
fn added_player_holds_nothing() {
    let mut game = GameState::new();
    assert!(game.add_player(A));
    assert_eq!(game.players.len(), 1);
    assert_eq!(game.players[0].id, A);
    assert!(game.players[0].hand.is_empty());
    assert!(game.players[0].draw_pile.is_empty());
    assert_eq!(game.deck.len(), 52);
}

#[test]
fn start_needs_two_players() {
    let mut game = GameState::new();
    game.start_game();
    assert!(!game.game_started);
    assert_eq!(game, GameState::new());
    game.add_player(A);
    let before = game.clone();
    game.start_game();
    assert!(!game.game_started);
    assert_eq!(game, before);
}

#[test]
fn start_deals_the_table() {
    let mut game = GameState::new();
    assert!(game.add_player(A));
    assert!(game.add_player(B));
    game.start_game();
    assert_eq!(game.deck.len(), 10);
    for p in game.players.iter() {
        assert_eq!(p.hand.len(), 5);
        assert_eq!(p.draw_pile.len(), 15);
    }
    for pile in game.center_piles.iter() {
        assert_eq!(pile.len(), 1);
    }
    assert!(game.game_started);
    assert_eq!(game.winner, None);
    assert_eq!(total_cards(&game), 52);
}

fn cards_on_table(game: &GameState) -> Vec<Card> {
    let mut all: Vec<Card> = Vec::new();
    for p in game.players.iter() {
        all.extend(p.hand.iter().copied());
        all.extend(p.draw_pile.iter().copied());
    }
    for pile in game.center_piles.iter() {
        all.extend(pile.iter().copied());
    }
    all.extend(game.deck.iter().copied());
    all
}

#[test]
fn start_keeps_every_card_once() {
    let mut game = GameState::new();
    game.add_player(A);
    game.add_player(B);
    game.start_game();
    let all = cards_on_table(&game);
    assert_eq!(all.len(), 52);
    for c in create_deck() {
        assert_eq!(all.iter().filter(|x| **x == c).count(), 1);
    }
}

#[test]
fn start_shuffles_the_deck() {
    let mut plain = GameState::new();
    plain.add_player(A);
    plain.add_player(B);
    plain.deal_cards();
    plain.deal_center_cards();
    plain.game_started = true;
    let mut same = 0;
    for _ in 0..4 {
        let mut game = GameState::new();
        game.add_player(A);
        game.add_player(B);
        game.start_game();
        if game == plain {
            same += 1;
        }
    }
    assert_eq!(same, 0);
}

#[test]
fn deal_takes_from_the_end_of_the_deck() {
    let mut game = GameState::new();
    game.add_player(A);
    game.add_player(B);
    let deck = create_deck();
    game.deal_cards();
    let hand_a: Vec<Card> = (0..5).map(|i| deck[51 - i]).collect();
    let draw_a: Vec<Card> = (5..20).map(|i| deck[51 - i]).collect();
    let hand_b: Vec<Card> = (20..25).map(|i| deck[51 - i]).collect();
    let draw_b: Vec<Card> = (25..40).map(|i| deck[51 - i]).collect();
    assert_eq!(game.players[0].hand, hand_a);
    assert_eq!(game.players[0].draw_pile, VecDeque::from(draw_a));
    assert_eq!(game.players[1].hand, hand_b);
    assert_eq!(game.players[1].draw_pile, VecDeque::from(draw_b));
    assert_eq!(game.players[0].hand[0], card(Suit::Spades, Rank::King));
    assert_eq!(game.players[0].draw_pile[0], card(Suit::Spades, Rank::Eight));
    assert_eq!(game.deck, deck[..12].to_vec());
    game.deal_center_cards();
    assert_eq!(game.center_piles[0], vec![card(Suit::Hearts, Rank::Queen)]);
    assert_eq!(game.center_piles[1], vec![card(Suit::Hearts, Rank::Jack)]);
    assert_eq!(game.deck, deck[..10].to_vec());
}

#[test]
fn deal_stops_when_the_deck_runs_out() {
    let mut game = GameState::new();
    game.add_player(A);
    game.add_player(B);
    let deck = create_deck();
    game.deck = deck[..7].to_vec();
    game.deal_cards();
    assert_eq!(game.players[0].hand.len(), 5);
    assert_eq!(game.players[0].draw_pile, VecDeque::from(vec![deck[1], deck[0]]));
    assert!(game.players[1].hand.is_empty());
    assert!(game.players[1].draw_pile.is_empty());
    assert!(game.deck.is_empty());
    game.deck = vec![deck[10]];
    game.deal_center_cards();
    assert_eq!(game.center_piles[0], vec![deck[10]]);
    assert!(game.center_piles[1].is_empty());
}

#[test]
fn card_goes_to_the_first_pile_when_both_take_it() {
    let five = card(Suit::Hearts, Rank::Five);
    let mut game = table(
        vec![five],
        vec![card(Suit::Clubs, Rank::Nine)],
        vec![card(Suit::Clubs, Rank::Two)],
        vec![],
        vec![vec![card(Suit::Spades, Rank::Six)], vec![card(Suit::Spades, Rank::Four)]],
        vec![],
    );
    game.process_command(play(A, 0));
    assert_eq!(game.center_piles[0], vec![card(Suit::Spades, Rank::Six), five]);
    assert_eq!(game.center_piles[1], vec![card(Suit::Spades, Rank::Four)]);
}

#[test]
fn card_goes_to_the_second_pile_when_only_it_takes_it() {
    let five = card(Suit::Hearts, Rank::Five);
    let mut game = table(
        vec![five],
        vec![card(Suit::Clubs, Rank::Nine)],
        vec![card(Suit::Clubs, Rank::Two)],
        vec![],
        vec![vec![card(Suit::Spades, Rank::Nine)], vec![card(Suit::Spades, Rank::Four)]],
        vec![],
    );
    game.process_command(play(A, 0));
    assert_eq!(game.center_piles[0], vec![card(Suit::Spades, Rank::Nine)]);
    assert_eq!(game.center_piles[1], vec![card(Suit::Spades, Rank::Four), five]);
}

#[test]
fn empty_pile_takes_any_card() {
    let five = card(Suit::Hearts, Rank::Five);
    let mut game = table(
        vec![five],
        vec![card(Suit::Clubs, Rank::Nine)],
        vec![card(Suit::Clubs, Rank::Two)],
        vec![],
        vec![vec![card(Suit::Spades, Rank::Nine)], vec![]],
        vec![],
    );
    game.process_command(play(A, 0));
    assert_eq!(game.center_piles[1], vec![five]);
}

#[test]
fn hand_is_refilled_from_the_front_of_the_draw_pile() {
    let nine = card(Suit::Clubs, Rank::Nine);
    let ten = card(Suit::Clubs, Rank::Ten);
    let mut game = table(
        vec![card(Suit::Hearts, Rank::Two), card(Suit::Hearts, Rank::Five), card(Suit::Hearts, Rank::Jack)],
        vec![nine, ten],
        vec![card(Suit::Clubs, Rank::Two)],
        vec![],
        vec![vec![card(Suit::Spades, Rank::Six)], vec![card(Suit::Spades, Rank::Four)]],
        vec![],
    );
    game.process_command(play(A, 1));
    assert_eq!(
        game.players[0].hand,
        vec![card(Suit::Hearts, Rank::Two), card(Suit::Hearts, Rank::Jack), nine]
    );
    assert_eq!(game.players[0].draw_pile, VecDeque::from(vec![ten]));
    assert_eq!(game.players[1].hand, vec![card(Suit::Clubs, Rank::Two)]);
    assert_eq!(total_cards(&game), 8);
}

#[test]
fn hand_shrinks_when_the_draw_pile_is_empty() {
    let mut game = table(
        vec![card(Suit::Hearts, Rank::Two), card(Suit::Hearts, Rank::Five)],
        vec![],
        vec![card(Suit::Clubs, Rank::Two)],
        vec![],
        vec![vec![card(Suit::Spades, Rank::Six)], vec![card(Suit::Spades, Rank::Four)]],
        vec![],
    );
    game.process_command(play(A, 1));
    assert_eq!(game.players[0].hand, vec![card(Suit::Hearts, Rank::Two)]);
    assert!(game.players[0].draw_pile.is_empty());
    assert_eq!(game.winner, None);
}

#[test]
fn illegal_plays_change_nothing() {
    let game = table(
        vec![card(Suit::Hearts, Rank::Two), card(Suit::Hearts, Rank::Five)],
        vec![card(Suit::Clubs, Rank::Nine)],
        vec![card(Suit::Clubs, Rank::Two)],
        vec![],
        vec![vec![card(Suit::Spades, Rank::Six)], vec![card(Suit::Spades, Rank::Nine)]],
        vec![card(Suit::Diamonds, Rank::Ace)],
    );
    let mut no_pile = game.clone();
    no_pile.process_command(play(A, 0));
    assert_eq!(no_pile, game);
    let mut bad_index = game.clone();
    bad_index.process_command(play(A, 2));
    assert_eq!(bad_index, game);
    let mut stranger = game.clone();
    stranger.process_command(play(C, 1));
    assert_eq!(stranger, game);
}

#[test]
fn commands_before_the_start_change_nothing() {
    let mut game = GameState::new();
    game.add_player(A);
    game.add_player(B);
    let before = game.clone();
    game.process_command(request(A));
    assert_eq!(game, before);
    game.process_command(play(A, 0));
    assert_eq!(game, before);
}

#[test]
fn request_deals_onto_both_piles() {
    let six = card(Suit::Spades, Rank::Six);
    let four = card(Suit::Spades, Rank::Four);
    let d0 = card(Suit::Diamonds, Rank::Ace);
    let d1 = card(Suit::Diamonds, Rank::Two);
    let d2 = card(Suit::Diamonds, Rank::Three);
    let mut game = table(
        vec![card(Suit::Hearts, Rank::Two)],
        vec![],
        vec![card(Suit::Clubs, Rank::Two)],
        vec![],
        vec![vec![six], vec![four]],
        vec![d0, d1, d2],
    );
    game.process_command(request(B));
    assert_eq!(game.center_piles[0], vec![six, d2]);
    assert_eq!(game.center_piles[1], vec![four, d1]);
    assert_eq!(game.deck, vec![d0]);
    game.process_command(request(A));
    assert_eq!(game.center_piles[0], vec![six, d2, d0]);
    assert_eq!(game.center_piles[1], vec![four, d1]);
    assert!(game.deck.is_empty());
    assert_eq!(total_cards(&game), 7);
}

#[test]
fn request_on_an_empty_deck_changes_nothing() {
    let mut game = table(
        vec![card(Suit::Hearts, Rank::Two)],
        vec![],
        vec![card(Suit::Clubs, Rank::Two)],
        vec![],
        vec![vec![card(Suit::Spades, Rank::Six)], vec![card(Suit::Spades, Rank::Four), card(Suit::Spades, Rank::Five)]],
        vec![],
    );
    let before = game.clone();
    game.process_command(request(A));
    assert_eq!(game.center_piles[0].len(), 1);
    assert_eq!(game.center_piles[1].len(), 2);
    assert_eq!(game, before);
}

#[test]
fn last_card_wins_and_the_game_is_over() {
    let mut game = table(
        vec![card(Suit::Hearts, Rank::Five)],
        vec![],
        vec![card(Suit::Clubs, Rank::Five)],
        vec![],
        vec![vec![card(Suit::Spades, Rank::Six)], vec![card(Suit::Spades, Rank::Four)]],
        vec![card(Suit::Diamonds, Rank::Ace), card(Suit::Diamonds, Rank::Two)],
    );
    game.process_command(play(B, 0));
    assert_eq!(game.winner, Some(B));
    assert!(game.players[1].hand.is_empty());
    let before = game.clone();
    game.process_command(play(A, 0));
    assert_eq!(game, before);
    game.process_command(request(A));
    assert_eq!(game, before);
    assert_eq!(game.winner, Some(B));
}

#[test]
fn first_finished_player_in_seating_order_wins() {
    let mut game = table(
        vec![],
        vec![],
        vec![],
        vec![],
        vec![vec![], vec![]],
        vec![card(Suit::Diamonds, Rank::Ace), card(Suit::Diamonds, Rank::Two)],
    );
    game.process_command(request(B));
    assert_eq!(game.winner, Some(A));
}

#[test]
fn check_winner_without_a_finished_player_changes_nothing() {
    let mut game = table(
        vec![],
        vec![card(Suit::Clubs, Rank::Five)],
        vec![card(Suit::Clubs, Rank::Six)],
        vec![],
        vec![vec![], vec![]],
        vec![],
    );
    let before = game.clone();
    game.check_winner();
    assert_eq!(game, before);
}

#[test]
fn cards_are_conserved_through_a_game() {
    let mut game = GameState::new();
    game.add_player(A);
    assert_eq!(total_cards(&game), 52);
    game.add_player(B);
    game.start_game();
    assert_eq!(total_cards(&game), 52);
    for round in 0..40 {
        for i in 0..5 {
            game.process_command(play(A, i));
            assert_eq!(total_cards(&game), 52);
            game.process_command(play(B, 4 - i));
            assert_eq!(total_cards(&game), 52);
        }
        if round % 3 == 0 {
            game.process_command(request(A));
            assert_eq!(total_cards(&game), 52);
        }
        assert_eq!(cards_on_table(&game).len(), 52);
    }
}

fn view_of(game: &GameState, id: PlayerId) -> PlayerView {
    game.create_player_view(id)
}

#[test]
fn view_shows_own_hand_and_counts_only() {
    let hand_a = vec![card(Suit::Hearts, Rank::Two), card(Suit::Hearts, Rank::Five)];
    let piles = vec![vec![card(Suit::Spades, Rank::Six)], vec![card(Suit::Spades, Rank::Four)]];
    let game = table(
        hand_a.clone(),
        vec![card(Suit::Clubs, Rank::Nine), card(Suit::Clubs, Rank::Ten), card(Suit::Clubs, Rank::Jack)],
        vec![card(Suit::Clubs, Rank::Two)],
        vec![card(Suit::Diamonds, Rank::Nine), card(Suit::Diamonds, Rank::Ten)],
        piles.clone(),
        vec![],
    );
    let a = view_of(&game, A);
    assert_eq!(
        a,
        PlayerView {
            player_id: A,
            hand: hand_a,
            draw_pile_count: 3,
            opponent_hand_count: 1,
            opponent_draw_pile_count: 2,
            center_piles: piles.clone(),
            game_started: true,
            winner: None,
        }
    );
    let b = view_of(&game, B);
    assert_eq!(
        b,
        PlayerView {
            player_id: B,
            hand: vec![card(Suit::Clubs, Rank::Two)],
            draw_pile_count: 2,
            opponent_hand_count: 2,
            opponent_draw_pile_count: 3,
            center_piles: piles,
            game_started: true,
            winner: None,
        }
    );
}

#[test]
fn view_does_not_depend_on_hidden_cards() {
    let hand_a = vec![card(Suit::Hearts, Rank::Two)];
    let piles = vec![vec![card(Suit::Spades, Rank::Six)], vec![]];
    let one = table(
        hand_a.clone(),
        vec![card(Suit::Clubs, Rank::Nine)],
        vec![card(Suit::Clubs, Rank::Two)],
        vec![card(Suit::Diamonds, Rank::Nine)],
        piles.clone(),
        vec![card(Suit::Diamonds, Rank::King)],
    );
    let other = table(
        hand_a,
        vec![card(Suit::Clubs, Rank::Ten)],
        vec![card(Suit::Clubs, Rank::Three)],
        vec![card(Suit::Diamonds, Rank::Ten)],
        piles,
        vec![],
    );
    assert_eq!(view_of(&one, A), view_of(&other, A));
}

#[test]
fn view_of_a_stranger_is_the_first_players() {
    let game = table(
        vec![card(Suit::Hearts, Rank::Two)],
        vec![],
        vec![card(Suit::Clubs, Rank::Two), card(Suit::Clubs, Rank::Three)],
        vec![card(Suit::Diamonds, Rank::Nine)],
        vec![vec![], vec![]],
        vec![],
    );
    let shown = view_of(&game, C);
    assert_eq!(shown.player_id, C);
    assert_eq!(shown.hand, vec![card(Suit::Hearts, Rank::Two)]);
    assert_eq!(shown.draw_pile_count, 0);
    assert_eq!(shown.opponent_hand_count, 2);
    assert_eq!(shown.opponent_draw_pile_count, 1);
}

#[test]
fn view_of_a_lone_player_has_no_opponent() {
    let mut game = GameState::new();
    game.add_player(A);
    let shown = view_of(&game, A);
    assert_eq!(shown.player_id, A);
    assert!(shown.hand.is_empty());
    assert_eq!(shown.draw_pile_count, 0);
    assert_eq!(shown.opponent_hand_count, 0);
    assert_eq!(shown.opponent_draw_pile_count, 0);
    assert_eq!(shown.center_piles, vec![Vec::<Card>::new(), Vec::<Card>::new()]);
    assert!(!shown.game_started);
    assert_eq!(shown.winner, None);
}

#[test]
fn view_passes_the_winner_through() {
    let mut game = table(
        vec![card(Suit::Hearts, Rank::Five)],
        vec![],
        vec![card(Suit::Clubs, Rank::Five)],
        vec![],
        vec![vec![card(Suit::Spades, Rank::Six)], vec![]],
        vec![],
    );
    game.process_command(play(A, 0));
    let shown = view_of(&game, B);
    assert_eq!(shown.winner, Some(A));
    assert_eq!(shown.opponent_hand_count, 0);
    assert_eq!(shown.center_piles[0].len(), 2);
}

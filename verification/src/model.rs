//! The mathematical model of a game: players, piles and deck as sequences,
//! and every rule of the engine as a function from one state to the next.

use vstd::prelude::*;
use crate::card::{Card, full_deck};

verus! {

/// Identity of a player: the 128 bits of the identifier that the
/// connection was given.
#[derive(Debug, Clone, Copy, PartialEq, Eq, Structural, Hash)]
pub struct PlayerId(pub u128);

/// What a player may ask of the engine.
#[derive(Debug, Clone, Copy, PartialEq, Eq, Structural)]
pub enum PlayerAction {
    PlayCard { card_index: usize },
    RequestNewCenterCards,
}

/// An action together with the player who asks for it.
#[derive(Debug, Clone, Copy, PartialEq, Eq, Structural)]
pub struct GameCommand {
    pub player_id: PlayerId,
    pub action: PlayerAction,
}

/// Model of one player: the hand, and the draw pile with the next card to
/// draw at its front.
pub struct PlayerModel {
    pub id: PlayerId,
    pub hand: Seq<Card>,
    pub draw_pile: Seq<Card>,
}

impl PlayerModel {
    /// How many cards the player holds, hand and draw pile together.
    pub open spec fn cards(self) -> nat {
        self.hand.len() + self.draw_pile.len()
    }

    /// A player with neither a hand nor a draw pile left has finished.
    pub open spec fn finished(self) -> bool {
        self.hand.len() == 0 && self.draw_pile.len() == 0
    }
}

/// What is left of `deck` after `n` cards were taken from its end, one at
/// a time, as far as it has any.
pub open spec fn keep(deck: Seq<Card>, n: nat) -> Seq<Card> {
    if n >= deck.len() {
        Seq::empty()
    } else {
        deck.take(deck.len() - n)
    }
}

/// The cards that `n` such takes yield, in the order in which they leave.
pub open spec fn drawn(deck: Seq<Card>, n: nat) -> Seq<Card> {
    let k = if n >= deck.len() { deck.len() } else { n };
    Seq::new(k, |i: int| deck[deck.len() - 1 - i])
}

/// One player's deal: five cards to the hand, then fifteen to the back of
/// the draw pile. Returns the player and the rest of the deck.
pub open spec fn deal_player(p: PlayerModel, deck: Seq<Card>) -> (PlayerModel, Seq<Card>) {
    let rest = keep(deck, 5);
    (
        PlayerModel {
            id: p.id,
            hand: p.hand + drawn(deck, 5),
            draw_pile: p.draw_pile + drawn(rest, 15),
        },
        keep(rest, 15),
    )
}

/// The deal to every player in turn, first player first.
pub open spec fn deal_players(players: Seq<PlayerModel>, deck: Seq<Card>) -> (
    Seq<PlayerModel>,
    Seq<Card>,
)
    decreases players.len(),
{
    if players.len() == 0 {
        (players, deck)
    } else {
        let (before, d1) = deal_players(players.drop_last(), deck);
        let (p, d2) = deal_player(players.last(), d1);
        (before.push(p), d2)
    }
}

/// One card from the end of the deck onto each pile in turn, as far as
/// the deck has cards.
pub open spec fn deal_piles(piles: Seq<Seq<Card>>, deck: Seq<Card>) -> (Seq<Seq<Card>>, Seq<Card>)
    decreases piles.len(),
{
    if piles.len() == 0 {
        (piles, deck)
    } else {
        let (before, d1) = deal_piles(piles.drop_last(), deck);
        if d1.len() > 0 {
            (before.push(piles.last().push(d1.last())), d1.drop_last())
        } else {
            (before.push(piles.last()), d1)
        }
    }
}

/// The cards that all the players hold.
pub open spec fn players_cards(players: Seq<PlayerModel>) -> nat
    decreases players.len(),
{
    if players.len() == 0 {
        0
    } else {
        players_cards(players.drop_last()) + players.last().cards()
    }
}

/// The cards that lie on all the piles.
pub open spec fn piles_cards(piles: Seq<Seq<Card>>) -> nat
    decreases piles.len(),
{
    if piles.len() == 0 {
        0
    } else {
        piles_cards(piles.drop_last()) + piles.last().len()
    }
}

/// The first index from `start` on at which a player with identity `id`
/// stands, or the number of players if there is none.
pub open spec fn find_player(players: Seq<PlayerModel>, id: PlayerId, start: int) -> int
    decreases players.len() - start,
{
    if start < 0 || start >= players.len() {
        players.len() as int
    } else if players[start].id == id {
        start
    } else {
        find_player(players, id, start + 1)
    }
}

/// A pile takes a card if it is empty or if the card's rank is a
/// neighbour of the rank on its top.
pub open spec fn pile_accepts(pile: Seq<Card>, card: Card) -> bool {
    pile.len() == 0 || card.rank.plays_on(pile.last().rank)
}

/// The first pile from `start` on that takes `card`, or the number of
/// piles if none does.
pub open spec fn select_pile(piles: Seq<Seq<Card>>, card: Card, start: int) -> int
    decreases piles.len() - start,
{
    if start < 0 || start >= piles.len() {
        piles.len() as int
    } else if pile_accepts(piles[start], card) {
        start
    } else {
        select_pile(piles, card, start + 1)
    }
}

/// The first player from `start` on who has finished, or the number of
/// players if none has.
pub open spec fn first_finished(players: Seq<PlayerModel>, start: int) -> int
    decreases players.len() - start,
{
    if start < 0 || start >= players.len() {
        players.len() as int
    } else if players[start].finished() {
        start
    } else {
        first_finished(players, start + 1)
    }
}

/// Whether `shuffled` holds the same cards as `deck`, each as often, in
/// any order.
pub open spec fn is_shuffle_of(shuffled: Seq<Card>, deck: Seq<Card>) -> bool {
    shuffled.to_multiset() == deck.to_multiset()
}

/// Model of the engine's state.
pub struct GameModel {
    pub players: Seq<PlayerModel>,
    /// Each pile with its top card last.
    pub center_piles: Seq<Seq<Card>>,
    /// The cards not yet dealt; the next one to deal is the last.
    pub deck: Seq<Card>,
    pub game_started: bool,
    pub winner: Option<PlayerId>,
}

/// The state of a new engine: nobody at the table, two empty piles, the
/// deck in its fresh order.
pub open spec fn new_game() -> GameModel {
    GameModel {
        players: Seq::empty(),
        center_piles: seq![Seq::empty(), Seq::empty()],
        deck: full_deck(),
        game_started: false,
        winner: None,
    }
}

impl GameModel {
    /// The shape that every state of an engine has: at most two players
    /// and exactly two center piles.
    pub open spec fn wf(self) -> bool {
        self.players.len() <= 2 && self.center_piles.len() == 2
    }

    /// All the cards in the game: deck, hands, draw piles, center piles.
    pub open spec fn total_cards(self) -> nat {
        self.deck.len() + players_cards(self.players) + piles_cards(self.center_piles)
    }

    /// What holds of every state that an engine can reach: its shape, and
    /// that no card was lost or made.
    pub open spec fn valid(self) -> bool {
        self.wf() && self.total_cards() == 52
    }

    /// Whether another player can still join.
    pub open spec fn has_seat(self) -> bool {
        self.players.len() < 2
    }

    /// The state after `id` asked to join: seated with nothing in hand if
    /// there was a seat, else nothing changed.
    pub open spec fn add_player(self, id: PlayerId) -> GameModel {
        if self.has_seat() {
            GameModel {
                players: self.players.push(
                    PlayerModel { id, hand: Seq::empty(), draw_pile: Seq::empty() },
                ),
                ..self
            }
        } else {
            self
        }
    }

    /// The same state with another deck.
    pub open spec fn with_deck(self, deck: Seq<Card>) -> GameModel {
        GameModel { deck, ..self }
    }

    /// The state after the deal to the players.
    pub open spec fn deal_cards(self) -> GameModel {
        let (players, deck) = deal_players(self.players, self.deck);
        GameModel { players, deck, ..self }
    }

    /// The state after one card went from the deck onto each center pile.
    pub open spec fn deal_center_cards(self) -> GameModel {
        let (center_piles, deck) = deal_piles(self.center_piles, self.deck);
        GameModel { center_piles, deck, ..self }
    }

    /// The state after the game was started on a deck that was shuffled
    /// to `shuffled`: with two players, both deals and the started flag;
    /// otherwise nothing changed.
    pub open spec fn start(self, shuffled: Seq<Card>) -> GameModel {
        if self.players.len() == 2 {
            let dealt = self.with_deck(shuffled).deal_cards().deal_center_cards();
            GameModel { game_started: true, ..dealt }
        } else {
            self
        }
    }

    /// Whether `id` can play the card at `card_index` of their hand: the
    /// player is known, the index is in the hand, and a pile takes the card.
    pub open spec fn can_play(self, id: PlayerId, card_index: int) -> bool {
        let pi = find_player(self.players, id, 0);
        &&& pi < self.players.len()
        &&& 0 <= card_index < self.players[pi].hand.len()
        &&& select_pile(self.center_piles, self.players[pi].hand[card_index], 0)
            < self.center_piles.len()
    }

    /// The state after `id` played the card at `card_index`: the card goes
    /// to the top of the first pile that takes it, and the front card of
    /// the draw pile, if there is one, goes to the end of the hand. Where
    /// the play is not possible, nothing changes.
    pub open spec fn play_card(self, id: PlayerId, card_index: int) -> GameModel {
        if self.can_play(id, card_index) {
            let pi = find_player(self.players, id, 0);
            let p = self.players[pi];
            let card = p.hand[card_index];
            let ci = select_pile(self.center_piles, card, 0);
            let hand = p.hand.remove(card_index);
            let after = if p.draw_pile.len() > 0 {
                PlayerModel {
                    id: p.id,
                    hand: hand.push(p.draw_pile.first()),
                    draw_pile: p.draw_pile.drop_first(),
                }
            } else {
                PlayerModel { id: p.id, hand, draw_pile: p.draw_pile }
            };
            GameModel {
                players: self.players.update(pi, after),
                center_piles: self.center_piles.update(ci, self.center_piles[ci].push(card)),
                ..self
            }
        } else {
            self
        }
    }

    /// The state after new center cards were asked for: with an empty deck
    /// nothing changes, else one card goes onto each pile.
    pub open spec fn request_new_center_cards(self) -> GameModel {
        if self.deck.len() == 0 {
            self
        } else {
            self.deal_center_cards()
        }
    }

    /// The state after the win condition was looked at: the first player
    /// who has finished, if any, is the winner.
    pub open spec fn check_winner(self) -> GameModel {
        let w = first_finished(self.players, 0);
        if w < self.players.len() {
            GameModel { winner: Some(self.players[w].id), ..self }
        } else {
            self
        }
    }

    /// Whether the engine takes commands: the game has started and nobody
    /// has won yet.
    pub open spec fn in_play(self) -> bool {
        self.game_started && self.winner.is_none()
    }

    /// The state after a command: outside play nothing changes; in play
    /// the action is applied and the win condition looked at.
    pub open spec fn process(self, command: GameCommand) -> GameModel {
        if !self.in_play() {
            self
        } else {
            match command.action {
                PlayerAction::PlayCard { card_index } => self.play_card(
                    command.player_id,
                    card_index as int,
                ).check_winner(),
                PlayerAction::RequestNewCenterCards => self.request_new_center_cards().check_winner(),
            }
        }
    }

    /// The index of the player from whose side `id` sees the game: their
    /// own, or the first player's where `id` is not at the table.
    pub open spec fn seat_of(self, id: PlayerId) -> int {
        let pi = find_player(self.players, id, 0);
        if pi < self.players.len() {
            pi
        } else {
            0
        }
    }

    /// The index of the player who sits opposite the seat `seat`.
    pub open spec fn opposite(seat: int) -> int {
        if seat == 0 {
            1
        } else {
            0
        }
    }

    /// What `id` is shown of the game, where at least one player is at the
    /// table: the own hand, the piles, and of everything else the counts.
    pub open spec fn player_view(self, id: PlayerId) -> PlayerViewModel {
        let me = self.players[self.seat_of(id)];
        let two = self.players.len() > 1;
        let other = self.players[Self::opposite(self.seat_of(id))];
        PlayerViewModel {
            player_id: id,
            hand: me.hand,
            draw_pile_count: me.draw_pile.len(),
            opponent_hand_count: if two { other.hand.len() } else { 0 },
            opponent_draw_pile_count: if two { other.draw_pile.len() } else { 0 },
            center_piles: self.center_piles,
            game_started: self.game_started,
            winner: self.winner,
        }
    }
}

/// Model of what one player is shown.
pub struct PlayerViewModel {
    pub player_id: PlayerId,
    pub hand: Seq<Card>,
    pub draw_pile_count: nat,
    pub opponent_hand_count: nat,
    pub opponent_draw_pile_count: nat,
    pub center_piles: Seq<Seq<Card>>,
    pub game_started: bool,
    pub winner: Option<PlayerId>,
}

} // verus!

//! The engine: the state of one game and the operations that change it,
//! each tied to its counterpart in the model.

use vstd::prelude::*;
use std::collections::VecDeque;
use crate::card::{Card, create_deck};
use crate::model::{
    GameCommand, GameModel, PlayerAction, PlayerId, PlayerModel, PlayerViewModel, deal_piles,
    deal_players, drawn, find_player, first_finished, is_shuffle_of, keep, new_game, select_pile,
};
use crate::shuffle::shuffle_deck;

verus! {

/// One player at the table.
#[derive(Debug, Clone, PartialEq, Eq)]
pub struct PlayerState {
    pub id: PlayerId,
    pub hand: Vec<Card>,
    /// The next card to draw is at the front.
    pub draw_pile: VecDeque<Card>,
}

impl View for PlayerState {
    type V = PlayerModel;

    open spec fn view(&self) -> PlayerModel {
        PlayerModel { id: self.id, hand: self.hand@, draw_pile: self.draw_pile@ }
    }
}

/// The models of a row of players.
pub open spec fn players_model(players: Seq<PlayerState>) -> Seq<PlayerModel> {
    Seq::new(players.len(), |i: int| players[i]@)
}

/// The models of a row of piles.
pub open spec fn piles_model(piles: Seq<Vec<Card>>) -> Seq<Seq<Card>> {
    Seq::new(piles.len(), |i: int| piles[i]@)
}

/// The state of one game.
#[derive(Debug, Clone, PartialEq, Eq)]
pub struct GameState {
    pub players: Vec<PlayerState>,
    /// Each pile with its top card last.
    pub center_piles: Vec<Vec<Card>>,
    /// The next card to deal is the last.
    pub deck: Vec<Card>,
    pub game_started: bool,
    pub winner: Option<PlayerId>,
}

impl View for GameState {
    type V = GameModel;

    open spec fn view(&self) -> GameModel {
        GameModel {
            players: players_model(self.players@),
            center_piles: piles_model(self.center_piles@),
            deck: self.deck@,
            game_started: self.game_started,
            winner: self.winner,
        }
    }
}

/// What one player is shown of the game: the own hand and the center
/// piles card by card, of everything else the sizes.
#[derive(Debug, PartialEq, Eq)]
pub struct PlayerView {
    pub player_id: PlayerId,
    pub hand: Vec<Card>,
    pub draw_pile_count: usize,
    pub opponent_hand_count: usize,
    pub opponent_draw_pile_count: usize,
    pub center_piles: Vec<Vec<Card>>,
    pub game_started: bool,
    pub winner: Option<PlayerId>,
}

impl View for PlayerView {
    type V = PlayerViewModel;

    open spec fn view(&self) -> PlayerViewModel {
        PlayerViewModel {
            player_id: self.player_id,
            hand: self.hand@,
            draw_pile_count: self.draw_pile_count as nat,
            opponent_hand_count: self.opponent_hand_count as nat,
            opponent_draw_pile_count: self.opponent_draw_pile_count as nat,
            center_piles: piles_model(self.center_piles@),
            game_started: self.game_started,
            winner: self.winner,
        }
    }
}

/// A copy of a row of cards.
fn copy_cards(cards: &Vec<Card>) -> (copy: Vec<Card>)
    ensures
        copy@ == cards@,
{
    let mut copy: Vec<Card> = Vec::with_capacity(cards.len());
    let mut i: usize = 0;
    while i < cards.len()
        invariant
            i <= cards@.len(),
            copy@ == cards@.take(i as int),
        decreases cards@.len() - i,
    {
        copy.push(cards[i]);
        proof {
            assert(copy@ =~= cards@.take(i + 1));
        }
        i += 1;
    }
    proof {
        assert(cards@.take(cards@.len() as int) =~= cards@);
    }
    copy
}

/// A copy of a row of piles.
fn copy_piles(piles: &Vec<Vec<Card>>) -> (copy: Vec<Vec<Card>>)
    ensures
        piles_model(copy@) == piles_model(piles@),
{
    let mut copy: Vec<Vec<Card>> = Vec::with_capacity(piles.len());
    let mut i: usize = 0;
    while i < piles.len()
        invariant
            i <= piles@.len(),
            copy@.len() == i,
            forall|j: int| 0 <= j < i ==> copy@[j]@ == piles@[j]@,
        decreases piles@.len() - i,
    {
        copy.push(copy_cards(&piles[i]));
        i += 1;
    }
    proof {
        assert(piles_model(copy@) =~= piles_model(piles@));
    }
    copy
}

/// Moves up to `n` cards from the end of the deck to the end of a hand.
fn draw_into_hand(deck: &mut Vec<Card>, hand: &mut Vec<Card>, n: usize)
    ensures
        final(deck)@ == keep(old(deck)@, n as nat),
        final(hand)@ == old(hand)@ + drawn(old(deck)@, n as nat),
{
    let ghost deck0 = deck@;
    let ghost hand0 = hand@;
    let mut j: usize = 0;
    while j < n
        invariant
            j <= n,
            deck@ == keep(deck0, j as nat),
            hand@ == hand0 + drawn(deck0, j as nat),
        decreases n - j,
    {
        if let Some(card) = deck.pop() {
            hand.push(card);
        }
        j += 1;
        proof {
            assert(deck@ =~= keep(deck0, j as nat));
            assert(hand@ =~= hand0 + drawn(deck0, j as nat));
        }
    }
}

/// Moves up to `n` cards from the end of the deck to the back of a draw
/// pile.
fn draw_into_pile(deck: &mut Vec<Card>, pile: &mut VecDeque<Card>, n: usize)
    ensures
        final(deck)@ == keep(old(deck)@, n as nat),
        final(pile)@ == old(pile)@ + drawn(old(deck)@, n as nat),
{
    let ghost deck0 = deck@;
    let ghost pile0 = pile@;
    let mut j: usize = 0;
    while j < n
        invariant
            j <= n,
            deck@ == keep(deck0, j as nat),
            pile@ == pile0 + drawn(deck0, j as nat),
        decreases n - j,
    {
        if let Some(card) = deck.pop() {
            pile.push_back(card);
        }
        j += 1;
        proof {
            assert(deck@ =~= keep(deck0, j as nat));
            assert(pile@ =~= pile0 + drawn(deck0, j as nat));
        }
    }
}

impl GameState {
    /// A new engine: nobody at the table, two empty center piles, the full
    /// deck in its fresh order, not started, no winner.
    pub fn new() -> (game: GameState)
        ensures
            game@ == new_game(),
            game@.valid(),
    {
        let mut center_piles: Vec<Vec<Card>> = Vec::new();
        center_piles.push(Vec::new());
        center_piles.push(Vec::new());
        let game = GameState {
            players: Vec::new(),
            center_piles,
            deck: create_deck(),
            game_started: false,
            winner: None,
        };
        proof {
            assert(game@.players =~= new_game().players);
            assert(game@.center_piles =~= new_game().center_piles);
            crate::laws::lemma_new_game_valid();
        }
        game
    }

    /// Seats `id` with an empty hand and an empty draw pile if fewer than
    /// two players are at the table, and says whether it did. With two
    /// players seated nothing changes.
    pub fn add_player(&mut self, id: PlayerId) -> (added: bool)
        ensures
            added == old(self)@.has_seat(),
            final(self)@ == old(self)@.add_player(id),
            final(self)@.total_cards() == old(self)@.total_cards(),
            old(self)@.valid() ==> final(self)@.valid(),
    {
        if self.players.len() >= 2 {
            return false;
        }
        self.players.push(PlayerState { id, hand: Vec::new(), draw_pile: VecDeque::new() });
        proof {
            assert(self@.players =~= old(self)@.add_player(id).players);
            crate::laws::lemma_add_player_keeps_cards(old(self)@, id);
        }
        true
    }

    /// Deals to each player in turn, from the end of the deck: five cards
    /// to the hand, then fifteen to the back of the draw pile.
    pub fn deal_cards(&mut self)
        ensures
            final(self)@ == old(self)@.deal_cards(),
            final(self)@.total_cards() == old(self)@.total_cards(),
    {
        proof {
            crate::laws::lemma_deals_keep_cards(old(self)@);
        }
        let ghost m0 = self@;
        let n = self.players.len();
        let mut i: usize = 0;
        proof {
            assert(m0.players.take(0) =~= Seq::empty());
            assert(self@.players.take(0) =~= Seq::empty());
        }
        while i < n
            invariant
                i <= n,
                n == self.players@.len(),
                n == m0.players.len(),
                (self@.players.take(i as int), self@.deck) == deal_players(
                    m0.players.take(i as int),
                    m0.deck,
                ),
                forall|j: int| i <= j < n ==> self@.players[j] == m0.players[j],
                self@.center_piles == m0.center_piles,
                self@.game_started == m0.game_started,
                self@.winner == m0.winner,
            decreases n - i,
        {
            let ghost before = self@;
            draw_into_hand(&mut self.deck, &mut self.players[i].hand, 5);
            draw_into_pile(&mut self.deck, &mut self.players[i].draw_pile, 15);
            proof {
                let k = i as int;
                assert(m0.players.take(k + 1).drop_last() =~= m0.players.take(k));
                assert(m0.players.take(k + 1).last() == m0.players[k]);
                assert(self@.players.take(k) =~= before.players.take(k));
                assert(self@.players.take(k + 1) =~= before.players.take(k).push(self@.players[k]));
            }
            i += 1;
        }
        proof {
            assert(self@.players.take(n as int) =~= self@.players);
            assert(m0.players.take(n as int) =~= m0.players);
        }
    }

    /// Deals one card from the end of the deck onto each center pile in
    /// turn, as far as the deck has cards.
    pub fn deal_center_cards(&mut self)
        ensures
            final(self)@ == old(self)@.deal_center_cards(),
            final(self)@.total_cards() == old(self)@.total_cards(),
    {
        proof {
            crate::laws::lemma_deals_keep_cards(old(self)@);
        }
        let ghost m0 = self@;
        let n = self.center_piles.len();
        let mut i: usize = 0;
        proof {
            assert(m0.center_piles.take(0) =~= Seq::empty());
            assert(self@.center_piles.take(0) =~= Seq::empty());
        }
        while i < n
            invariant
                i <= n,
                n == self.center_piles@.len(),
                n == m0.center_piles.len(),
                (self@.center_piles.take(i as int), self@.deck) == deal_piles(
                    m0.center_piles.take(i as int),
                    m0.deck,
                ),
                forall|j: int| i <= j < n ==> self@.center_piles[j] == m0.center_piles[j],
                self@.players == m0.players,
                self@.game_started == m0.game_started,
                self@.winner == m0.winner,
            decreases n - i,
        {
            let ghost before = self@;
            if let Some(card) = self.deck.pop() {
                self.center_piles[i].push(card);
            }
            proof {
                let k = i as int;
                assert(m0.center_piles.take(k + 1).drop_last() =~= m0.center_piles.take(k));
                assert(m0.center_piles.take(k + 1).last() == m0.center_piles[k]);
                assert(self@.center_piles.take(k) =~= before.center_piles.take(k));
                assert(self@.center_piles.take(k + 1) =~= before.center_piles.take(k).push(
                    self@.center_piles[k],
                ));
                assert(self@.deck =~= if before.deck.len() > 0 {
                    before.deck.drop_last()
                } else {
                    before.deck
                });
                assert(self@.players =~= before.players);
            }
            i += 1;
        }
        proof {
            assert(self@.center_piles.take(n as int) =~= self@.center_piles);
            assert(m0.center_piles.take(n as int) =~= m0.center_piles);
        }
    }

    /// Starts the game if exactly two players are at the table: shuffles
    /// the deck, deals to the players and onto the center piles, and sets
    /// the started flag. With any other number of players nothing changes.
    ///
    /// The order of the shuffled deck is left to chance; whatever it is,
    /// the state afterwards is the model's start on that order.
    pub fn start_game(&mut self)
        ensures
            old(self)@.players.len() != 2 ==> final(self)@ == old(self)@,
            old(self)@.players.len() == 2 ==> exists|shuffled: Seq<Card>|
                is_shuffle_of(shuffled, old(self)@.deck) && final(self)@ == old(self)@.start(
                    shuffled,
                ),
            final(self)@.total_cards() == old(self)@.total_cards(),
            old(self)@.valid() ==> final(self)@.valid(),
    {
        if self.players.len() != 2 {
            return ;
        }
        shuffle_deck(&mut self.deck);
        let ghost shuffled = self.deck@;
        proof {
            assert(self@ == old(self)@.with_deck(shuffled));
        }
        self.deal_cards();
        self.deal_center_cards();
        self.game_started = true;
        proof {
            assert(self@ == old(self)@.start(shuffled));
            crate::laws::lemma_start_keeps_cards(old(self)@, shuffled);
        }
    }

    /// The index of the first player with identity `id`, if there is one.
    fn position_of(&self, id: PlayerId) -> (found: Option<usize>)
        ensures
            match found {
                Some(i) => i < self@.players.len() && i == find_player(self@.players, id, 0),
                None => find_player(self@.players, id, 0) == self@.players.len(),
            },
    {
        let n = self.players.len();
        let mut i: usize = 0;
        while i < n
            invariant
                i <= n,
                n == self.players@.len(),
                find_player(self@.players, id, 0) == find_player(self@.players, id, i as int),
            decreases n - i,
        {
            if self.players[i].id == id {
                return Some(i);
            }
            i += 1;
        }
        None
    }

    /// The index of the first center pile that takes `card`, if one does.
    fn pile_for(&self, card: Card) -> (found: Option<usize>)
        ensures
            match found {
                Some(i) => i < self@.center_piles.len() && i == select_pile(
                    self@.center_piles,
                    card,
                    0,
                ),
                None => select_pile(self@.center_piles, card, 0) == self@.center_piles.len(),
            },
    {
        let n = self.center_piles.len();
        let mut i: usize = 0;
        while i < n
            invariant
                i <= n,
                n == self.center_piles@.len(),
                select_pile(self@.center_piles, card, 0) == select_pile(
                    self@.center_piles,
                    card,
                    i as int,
                ),
            decreases n - i,
        {
            let pile = &self.center_piles[i];
            let len = pile.len();
            if len == 0 || card.rank.can_play_on(&pile[len - 1].rank) {
                return Some(i);
            }
            i += 1;
        }
        None
    }

    /// Plays the card at `card_index` of the hand of `player_id` onto the
    /// first center pile that takes it, then moves the front card of that
    /// player's draw pile, if there is one, to the end of the hand. An
    /// unknown player, an index outside the hand, or a card that no pile
    /// takes leaves the state as it is.
    pub fn play_card(&mut self, player_id: PlayerId, card_index: usize)
        ensures
            final(self)@ == old(self)@.play_card(player_id, card_index as int),
            final(self)@.total_cards() == old(self)@.total_cards(),
    {
        proof {
            crate::laws::lemma_play_card_keeps_cards(old(self)@, player_id, card_index as int);
        }
        let player_index = match self.position_of(player_id) {
            Some(index) => index,
            None => {
                return ;
            },
        };
        if card_index >= self.players[player_index].hand.len() {
            return ;
        }
        let card = self.players[player_index].hand[card_index];
        let pile_index = match self.pile_for(card) {
            Some(index) => index,
            None => {
                return ;
            },
        };
        self.players[player_index].hand.remove(card_index);
        self.center_piles[pile_index].push(card);
        if let Some(new_card) = self.players[player_index].draw_pile.pop_front() {
            self.players[player_index].hand.push(new_card);
        }
        proof {
            let want = old(self)@.play_card(player_id, card_index as int);
            assert(self@.players[player_index as int].draw_pile =~= want.players[player_index as int].draw_pile);
            assert(self@.players =~= want.players);
            assert(self@.center_piles =~= want.center_piles);
        }
    }

    /// Deals one card onto each center pile, whatever lies there, unless
    /// the deck is empty: then nothing changes.
    pub fn request_new_center_cards(&mut self)
        ensures
            final(self)@ == old(self)@.request_new_center_cards(),
            final(self)@.total_cards() == old(self)@.total_cards(),
    {
        proof {
            crate::laws::lemma_request_keeps_cards(old(self)@);
        }
        if self.deck.len() == 0 {
            return ;
        }
        self.deal_center_cards();
    }

    /// Declares the first player, in seating order, whose hand and draw
    /// pile are both empty the winner. Where nobody has finished, nothing
    /// changes.
    pub fn check_winner(&mut self)
        ensures
            final(self)@ == old(self)@.check_winner(),
            final(self)@.total_cards() == old(self)@.total_cards(),
    {
        let n = self.players.len();
        let mut i: usize = 0;
        while i < n
            invariant
                i <= n,
                n == self.players@.len(),
                *self == *old(self),
                first_finished(self@.players, 0) == first_finished(self@.players, i as int),
            decreases n - i,
        {
            if self.players[i].hand.len() == 0 && self.players[i].draw_pile.len() == 0 {
                self.winner = Some(self.players[i].id);
                proof {
                    assert(self@.players =~= old(self)@.players);
                }
                return ;
            }
            i += 1;
        }
    }

    /// Applies a command. Before the game has started, and once there is a
    /// winner, nothing changes. Otherwise the action is applied (a play
    /// that is not possible, or a request on an empty deck, changes
    /// nothing) and then the win condition is looked at.
    pub fn process_command(&mut self, command: GameCommand)
        ensures
            final(self)@ == old(self)@.process(command),
            final(self)@.total_cards() == old(self)@.total_cards(),
            old(self)@.valid() ==> final(self)@.valid(),
    {
        proof {
            crate::laws::lemma_process_keeps_cards(old(self)@, command);
        }
        if !self.game_started || self.winner.is_some() {
            return ;
        }
        match command.action {
            PlayerAction::PlayCard { card_index } => {
                self.play_card(command.player_id, card_index);
            },
            PlayerAction::RequestNewCenterCards => {
                self.request_new_center_cards();
            },
        }
        self.check_winner();
    }

    /// What `player_id` is shown of the game: their own hand in full, the
    /// size of their draw pile, the sizes of the other player's hand and
    /// draw pile (zero while they sit alone), both center piles in full,
    /// the started flag and the winner. An identity that is not at the
    /// table is shown the game from the first player's seat.
    ///
    /// At least one player must be at the table.
    pub fn create_player_view(&self, player_id: PlayerId) -> (shown: PlayerView)
        requires
            self@.players.len() >= 1,
        ensures
            shown@ == self@.player_view(player_id),
    {
        let player_index = match self.position_of(player_id) {
            Some(index) => index,
            None => 0,
        };
        let player = &self.players[player_index];
        let mut opponent_hand_count: usize = 0;
        let mut opponent_draw_pile_count: usize = 0;
        if self.players.len() > 1 {
            let opponent_index: usize = if player_index == 0 {
                1
            } else {
                0
            };
            let opponent = &self.players[opponent_index];
            opponent_hand_count = opponent.hand.len();
            opponent_draw_pile_count = opponent.draw_pile.len();
        }
        PlayerView {
            player_id,
            hand: copy_cards(&player.hand),
            draw_pile_count: player.draw_pile.len(),
            opponent_hand_count,
            opponent_draw_pile_count,
            center_piles: copy_piles(&self.center_piles),
            game_started: self.game_started,
            winner: self.winner,
        }
    }
}

} // verus!

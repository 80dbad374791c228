//! What holds of the engine whatever is played: statements over the model,
//! each proved once.

use vstd::prelude::*;
use crate::card::Card;
use crate::model::{
    GameCommand, GameModel, PlayerAction, PlayerId, PlayerModel, deal_piles, deal_player,
    deal_players, find_player, first_finished, is_shuffle_of, new_game, piles_cards,
    players_cards, pile_accepts, select_pile,
};

verus! {

/// A new game has the shape of a game and all 52 cards, in the deck.
pub proof fn lemma_new_game_valid()
    ensures
        new_game().valid(),
        new_game().deck.len() == 52,
{
    let g = new_game();
    assert(players_cards(g.players) == 0);
    let one = g.center_piles.drop_last();
    assert(one.len() == 1);
    assert(one.drop_last().len() == 0);
    assert(piles_cards(one.drop_last()) == 0);
    assert(piles_cards(one) == 0);
    assert(piles_cards(g.center_piles) == 0);
}

/// Seating a player moves no card.
pub proof fn lemma_add_player_keeps_cards(g: GameModel, id: PlayerId)
    ensures
        g.add_player(id).total_cards() == g.total_cards(),
        g.wf() ==> g.add_player(id).wf(),
{
    if g.has_seat() {
        let p = PlayerModel { id, hand: Seq::empty(), draw_pile: Seq::empty() };
        assert(g.players.push(p).drop_last() =~= g.players);
    }
}

/// Replacing one player changes the players' cards by the difference
/// between the two.
pub proof fn lemma_players_cards_update(players: Seq<PlayerModel>, i: int, p: PlayerModel)
    requires
        0 <= i < players.len(),
    ensures
        players_cards(players.update(i, p)) + players[i].cards() == players_cards(players)
            + p.cards(),
    decreases players.len(),
{
    if i == players.len() - 1 {
        assert(players.update(i, p).drop_last() =~= players.drop_last());
    } else {
        assert(players.update(i, p).drop_last() =~= players.drop_last().update(i, p));
        lemma_players_cards_update(players.drop_last(), i, p);
    }
}

/// Replacing one pile changes the piles' cards by the difference between
/// the two.
pub proof fn lemma_piles_cards_update(piles: Seq<Seq<Card>>, i: int, pile: Seq<Card>)
    requires
        0 <= i < piles.len(),
    ensures
        piles_cards(piles.update(i, pile)) + piles[i].len() == piles_cards(piles) + pile.len(),
    decreases piles.len(),
{
    if i == piles.len() - 1 {
        assert(piles.update(i, pile).drop_last() =~= piles.drop_last());
    } else {
        assert(piles.update(i, pile).drop_last() =~= piles.drop_last().update(i, pile));
        lemma_piles_cards_update(piles.drop_last(), i, pile);
    }
}

/// The deal to the players seats nobody anew, keeps every identity, and
/// moves cards from the deck to the players without losing one.
pub proof fn lemma_deal_players(players: Seq<PlayerModel>, deck: Seq<Card>)
    ensures
        deal_players(players, deck).0.len() == players.len(),
        forall|i: int|
            0 <= i < players.len() ==> (#[trigger] deal_players(players, deck).0[i]).id
                == players[i].id,
        players_cards(deal_players(players, deck).0) + deal_players(players, deck).1.len()
            == players_cards(players) + deck.len(),
    decreases players.len(),
{
    if players.len() > 0 {
        lemma_deal_players(players.drop_last(), deck);
        let (before, d1) = deal_players(players.drop_last(), deck);
        let (p, d2) = deal_player(players.last(), d1);
        assert(before.push(p).drop_last() =~= before);
        assert(p.cards() + d2.len() == players.last().cards() + d1.len());
    }
}

/// The deal onto the piles keeps their number and moves cards from the
/// deck to the piles without losing one.
pub proof fn lemma_deal_piles(piles: Seq<Seq<Card>>, deck: Seq<Card>)
    ensures
        deal_piles(piles, deck).0.len() == piles.len(),
        piles_cards(deal_piles(piles, deck).0) + deal_piles(piles, deck).1.len() == piles_cards(
            piles,
        ) + deck.len(),
    decreases piles.len(),
{
    if piles.len() > 0 {
        lemma_deal_piles(piles.drop_last(), deck);
        let (before, d1) = deal_piles(piles.drop_last(), deck);
        if d1.len() > 0 {
            assert(before.push(piles.last().push(d1.last())).drop_last() =~= before);
        } else {
            assert(before.push(piles.last()).drop_last() =~= before);
        }
    }
}

/// The search for a player returns the first seat with that identity:
/// nobody before it has the identity, and it is the number of players
/// exactly if nobody has it.
pub proof fn lemma_find_player(players: Seq<PlayerModel>, id: PlayerId, start: int)
    requires
        0 <= start <= players.len(),
    ensures
        start <= find_player(players, id, start) <= players.len(),
        find_player(players, id, start) < players.len() ==> players[find_player(
            players,
            id,
            start,
        )].id == id,
        forall|j: int| start <= j < find_player(players, id, start) ==> players[j].id != id,
    decreases players.len() - start,
{
    if start < players.len() && players[start].id != id {
        lemma_find_player(players, id, start + 1);
    }
}

/// The search for a finished player returns the first one in seating
/// order, and the number of players exactly if nobody has finished.
pub proof fn lemma_first_finished(players: Seq<PlayerModel>, start: int)
    requires
        0 <= start <= players.len(),
    ensures
        start <= first_finished(players, start) <= players.len(),
        first_finished(players, start) < players.len() ==> players[first_finished(
            players,
            start,
        )].finished(),
        forall|j: int| start <= j < first_finished(players, start) ==> !players[j].finished(),
    decreases players.len() - start,
{
    if start < players.len() && !players[start].finished() {
        lemma_first_finished(players, start + 1);
    }
}

/// The search for a pile returns the first one that takes the card, and
/// the number of piles exactly if none does.
pub proof fn lemma_select_pile(piles: Seq<Seq<Card>>, card: Card, start: int)
    requires
        0 <= start <= piles.len(),
    ensures
        start <= select_pile(piles, card, start) <= piles.len(),
        select_pile(piles, card, start) < piles.len() ==> pile_accepts(
            piles[select_pile(piles, card, start)],
            card,
        ),
        forall|j: int|
            start <= j < select_pile(piles, card, start) ==> !pile_accepts(
                piles[j],
                card,
            ),
    decreases piles.len() - start,
{
    if start < piles.len() && !pile_accepts(piles[start], card) {
        lemma_select_pile(piles, card, start + 1);
    }
}

/// The two deals, to the players and onto the center piles, each keep
/// the shape of the game and the number of its cards.
pub proof fn lemma_deals_keep_cards(g: GameModel)
    ensures
        g.deal_cards().total_cards() == g.total_cards(),
        g.deal_cards().players.len() == g.players.len(),
        g.deal_cards().center_piles == g.center_piles,
        g.deal_center_cards().total_cards() == g.total_cards(),
        g.deal_center_cards().center_piles.len() == g.center_piles.len(),
        g.deal_center_cards().players == g.players,
{
    lemma_deal_players(g.players, g.deck);
    lemma_deal_piles(g.center_piles, g.deck);
}

/// Starting the game on any shuffle of the deck keeps the shape of the
/// game and the number of its cards.
pub proof fn lemma_start_keeps_cards(g: GameModel, shuffled: Seq<Card>)
    requires
        is_shuffle_of(shuffled, g.deck),
    ensures
        g.start(shuffled).total_cards() == g.total_cards(),
        g.start(shuffled).players.len() == g.players.len(),
        g.start(shuffled).center_piles.len() == g.center_piles.len(),
        g.wf() ==> g.start(shuffled).wf(),
        g.valid() ==> g.start(shuffled).valid(),
{
    shuffled.to_multiset_ensures();
    g.deck.to_multiset_ensures();
    assert(shuffled.len() == g.deck.len());
    if g.players.len() == 2 {
        lemma_deal_players(g.players, shuffled);
        let d1 = deal_players(g.players, shuffled).1;
        lemma_deal_piles(g.center_piles, d1);
    }
}

/// Playing a card, possible or not, keeps the shape of the game and the
/// number of its cards.
pub proof fn lemma_play_card_keeps_cards(g: GameModel, id: PlayerId, card_index: int)
    ensures
        g.play_card(id, card_index).total_cards() == g.total_cards(),
        g.play_card(id, card_index).players.len() == g.players.len(),
        g.play_card(id, card_index).center_piles.len() == g.center_piles.len(),
        g.play_card(id, card_index).deck == g.deck,
{
    if g.can_play(id, card_index) {
        lemma_find_player(g.players, id, 0);
        let pi = find_player(g.players, id, 0);
        let card = g.players[pi].hand[card_index];
        lemma_select_pile(g.center_piles, card, 0);
        let ci = select_pile(g.center_piles, card, 0);
        let after = g.play_card(id, card_index);
        lemma_players_cards_update(g.players, pi, after.players[pi]);
        lemma_piles_cards_update(g.center_piles, ci, g.center_piles[ci].push(card));
    }
}

/// Asking for new center cards keeps the shape of the game and the
/// number of its cards.
pub proof fn lemma_request_keeps_cards(g: GameModel)
    ensures
        g.request_new_center_cards().total_cards() == g.total_cards(),
        g.request_new_center_cards().players == g.players,
        g.request_new_center_cards().center_piles.len() == g.center_piles.len(),
{
    lemma_deal_piles(g.center_piles, g.deck);
}

/// Conservation: a command keeps the shape of the game and the number of
/// its cards, so a game that holds 52 cards holds 52 after it.
pub proof fn lemma_process_keeps_cards(g: GameModel, command: GameCommand)
    ensures
        g.process(command).total_cards() == g.total_cards(),
        g.process(command).players.len() == g.players.len(),
        g.process(command).center_piles.len() == g.center_piles.len(),
        g.wf() ==> g.process(command).wf(),
        g.valid() ==> g.process(command).valid(),
{
    match command.action {
        PlayerAction::PlayCard { card_index } => {
            lemma_play_card_keeps_cards(g, command.player_id, card_index as int);
        },
        PlayerAction::RequestNewCenterCards => {
            lemma_request_keeps_cards(g);
        },
    }
}

/// Pile choice: a card that the first center pile takes goes onto the
/// first pile, whether or not the second would take it too, and the
/// second pile stays as it is.
pub proof fn lemma_first_pile_preferred(g: GameModel, id: PlayerId, card_index: int)
    requires
        g.wf(),
        find_player(g.players, id, 0) < g.players.len(),
        0 <= card_index < g.players[find_player(g.players, id, 0)].hand.len(),
        pile_accepts(
            g.center_piles[0],
            g.players[find_player(g.players, id, 0)].hand[card_index],
        ),
    ensures
        g.play_card(id, card_index).center_piles[0] == g.center_piles[0].push(
            g.players[find_player(g.players, id, 0)].hand[card_index],
        ),
        g.play_card(id, card_index).center_piles[1] == g.center_piles[1],
{
}

/// Hand size after a play that is possible: with a card on the draw pile
/// the hand keeps its size and the draw pile loses its front card; with
/// an empty draw pile the hand is one card smaller. Nobody else's cards
/// change.
pub proof fn lemma_hand_after_play(g: GameModel, id: PlayerId, card_index: int)
    requires
        g.can_play(id, card_index),
    ensures
        ({
            let pi = find_player(g.players, id, 0);
            let before = g.players[pi];
            let after = g.play_card(id, card_index).players[pi];
            &&& before.draw_pile.len() > 0 ==> after.hand.len() == before.hand.len()
                && after.draw_pile.len() == before.draw_pile.len() - 1
            &&& before.draw_pile.len() == 0 ==> after.hand.len() == before.hand.len() - 1
                && after.draw_pile.len() == 0
            &&& forall|j: int|
                0 <= j < g.players.len() && j != pi ==> g.play_card(id, card_index).players[j]
                    == g.players[j]
        }),
{
    lemma_find_player(g.players, id, 0);
}

/// Win latch, first half: in a state that a command has led to from a
/// game in play, if any player has neither hand nor draw pile left, the
/// winner is the first such player in seating order.
pub proof fn lemma_finished_player_wins(g: GameModel, command: GameCommand)
    requires
        g.in_play(),
    ensures
        ({
            let after = g.process(command);
            let w = first_finished(after.players, 0);
            &&& 0 <= w <= after.players.len()
            &&& w < after.players.len() ==> after.players[w].finished() && after.winner == Some(
                after.players[w].id,
            )
            &&& w == after.players.len() ==> after.winner.is_none() && forall|j: int|
                0 <= j < after.players.len() ==> !after.players[j].finished()
        }),
{
    lemma_first_finished(g.process(command).players, 0);
}

/// Win latch, second half: once there is a winner, every command leaves
/// the state exactly as it is.
pub proof fn lemma_winner_is_final(g: GameModel, command: GameCommand)
    requires
        g.winner.is_some(),
    ensures
        g.process(command) == g,
{
}

/// Before the game has started, every command leaves the state exactly
/// as it is.
pub proof fn lemma_no_play_before_start(g: GameModel, command: GameCommand)
    requires
        !g.game_started,
    ensures
        g.process(command) == g,
{
}

/// Capacity: with two players seated, a further one is refused and the
/// state stays as it is; and without exactly two players, starting the
/// game changes nothing, so the game stays as unstarted as it was.
pub proof fn lemma_capacity(g: GameModel, id: PlayerId, shuffled: Seq<Card>)
    ensures
        g.players.len() >= 2 ==> !g.has_seat() && g.add_player(id) == g,
        g.players.len() != 2 ==> g.start(shuffled) == g,
{
}

/// Where a player is found depends on the identities alone.
pub proof fn lemma_find_player_by_ids(
    a: Seq<PlayerModel>,
    b: Seq<PlayerModel>,
    id: PlayerId,
    start: int,
)
    requires
        a.len() == b.len(),
        forall|i: int| 0 <= i < a.len() ==> a[i].id == b[i].id,
    ensures
        find_player(a, id, start) == find_player(b, id, start),
    decreases a.len() - start,
{
    if 0 <= start < a.len() && a[start].id != id {
        lemma_find_player_by_ids(a, b, id, start + 1);
    }
}

/// View asymmetry: what a player is shown is the same in any two games
/// that agree on who sits where, on the cards in that player's own hand,
/// on the sizes of every hand and draw pile, on the center piles, and on
/// the started flag and the winner. So the view gives away no card of
/// another hand and no card of any draw pile; and the own hand is in it
/// in full.
pub proof fn lemma_view_shows_only_counts(a: GameModel, b: GameModel, id: PlayerId)
    requires
        a.players.len() == b.players.len(),
        a.players.len() >= 1,
        forall|i: int| 0 <= i < a.players.len() ==> a.players[i].id == b.players[i].id,
        forall|i: int|
            0 <= i < a.players.len() ==> a.players[i].hand.len() == b.players[i].hand.len(),
        forall|i: int|
            0 <= i < a.players.len() ==> a.players[i].draw_pile.len()
                == b.players[i].draw_pile.len(),
        a.players[a.seat_of(id)].hand == b.players[a.seat_of(id)].hand,
        a.center_piles == b.center_piles,
        a.game_started == b.game_started,
        a.winner == b.winner,
    ensures
        a.seat_of(id) == b.seat_of(id),
        a.player_view(id) == b.player_view(id),
        a.player_view(id).hand == a.players[a.seat_of(id)].hand,
{
    lemma_find_player_by_ids(a.players, b.players, id, 0);
    lemma_find_player(a.players, id, 0);
}

/// The opening deal: two players who hold nothing, two empty center
/// piles and a deck of 52 cards. From the end of the shuffled deck the
/// first player gets five cards in hand and fifteen on the draw pile,
/// then the second player likewise, then each center pile one card; ten
/// cards stay in the deck. The game is started and has no new winner.
pub proof fn lemma_opening_deal(g: GameModel, shuffled: Seq<Card>)
    requires
        g.players.len() == 2,
        g.center_piles.len() == 2,
        shuffled.len() == 52,
        forall|i: int| 0 <= i < 2 ==> (#[trigger] g.players[i]).cards() == 0,
        forall|i: int| 0 <= i < 2 ==> (#[trigger] g.center_piles[i]).len() == 0,
    ensures
        ({
            let s = g.start(shuffled);
            &&& s.game_started
            &&& s.winner == g.winner
            &&& s.players.len() == 2
            &&& s.center_piles.len() == 2
            &&& s.deck == shuffled.take(10)
            &&& s.players[0].id == g.players[0].id
            &&& s.players[1].id == g.players[1].id
            &&& s.players[0].hand == Seq::new(5, |i: int| shuffled[51 - i])
            &&& s.players[0].draw_pile == Seq::new(15, |i: int| shuffled[46 - i])
            &&& s.players[1].hand == Seq::new(5, |i: int| shuffled[31 - i])
            &&& s.players[1].draw_pile == Seq::new(15, |i: int| shuffled[26 - i])
            &&& s.center_piles[0] == seq![shuffled[11]]
            &&& s.center_piles[1] == seq![shuffled[10]]
            &&& s.total_cards() == 52
        }),
{
    let s = g.start(shuffled);
    let none = g.players.drop_last().drop_last();
    let one = g.players.drop_last();
    assert(none.len() == 0);
    assert(deal_players(none, shuffled) == (none, shuffled));
    let (first, d0) = deal_player(one.last(), shuffled);
    assert(deal_players(one, shuffled) == (none.push(first), d0));
    let (second, d1) = deal_player(g.players.last(), d0);
    assert(deal_players(g.players, shuffled) == (none.push(first).push(second), d1));
    assert(d0 =~= shuffled.take(32));
    assert(d1 =~= shuffled.take(12));
    assert(first.hand =~= Seq::new(5, |i: int| shuffled[51 - i]));
    assert(first.draw_pile =~= Seq::new(15, |i: int| shuffled[46 - i]));
    assert(second.hand =~= Seq::new(5, |i: int| shuffled[31 - i]));
    assert(second.draw_pile =~= Seq::new(15, |i: int| shuffled[26 - i]));
    let no_pile = g.center_piles.drop_last().drop_last();
    let one_pile = g.center_piles.drop_last();
    assert(no_pile.len() == 0);
    assert(deal_piles(no_pile, d1) == (no_pile, d1));
    let c0 = one_pile.last().push(d1.last());
    assert(deal_piles(one_pile, d1) == (no_pile.push(c0), d1.drop_last()));
    let c1 = g.center_piles.last().push(d1.drop_last().last());
    assert(deal_piles(g.center_piles, d1) == (
        no_pile.push(c0).push(c1),
        d1.drop_last().drop_last(),
    ));
    assert(c0 =~= seq![shuffled[11]]);
    assert(c1 =~= seq![shuffled[10]]);
    assert(d1.drop_last().drop_last() =~= shuffled.take(10));
    assert(s.deck == shuffled.take(10));
    // the count: 10 in the deck, 20 with each player, 1 on each pile
    assert(s.players.drop_last() =~= none.push(first));
    assert(s.players.drop_last().drop_last() =~= none);
    assert(players_cards(none) == 0);
    assert(players_cards(s.players.drop_last()) == 20);
    assert(players_cards(s.players) == 40);
    assert(s.center_piles.drop_last() =~= no_pile.push(c0));
    assert(s.center_piles.drop_last().drop_last() =~= no_pile);
    assert(piles_cards(no_pile) == 0);
    assert(piles_cards(s.center_piles.drop_last()) == 1);
    assert(piles_cards(s.center_piles) == 2);
}

} // verus!

//! One session: the connections that take part and the engine they share,
//! and what to do and whom to tell when a connection opens, sends an
//! action, or closes. Sending is the caller's part; here it is decided
//! what is sent.

use vstd::prelude::*;
use crate::card::Card;
use crate::game::{GameState, PlayerView};
use crate::identity::fresh_identity;
use crate::model::{
    GameCommand, GameModel, PlayerAction, PlayerId, PlayerViewModel, is_shuffle_of, new_game,
};

verus! {

/// The state after each of `ids` in turn asked to join.
pub open spec fn seat_all(g: GameModel, ids: Seq<PlayerId>) -> GameModel
    decreases ids.len(),
{
    if ids.len() == 0 {
        g
    } else {
        seat_all(g, ids.drop_last()).add_player(ids.last())
    }
}

/// What each of `ids` in turn is shown of `g`.
pub open spec fn views_of(g: GameModel, ids: Seq<PlayerId>) -> Seq<PlayerViewModel> {
    Seq::new(ids.len(), |i: int| g.player_view(ids[i]))
}

/// The models of a row of views.
pub open spec fn views_model(views: Seq<PlayerView>) -> Seq<PlayerViewModel> {
    Seq::new(views.len(), |i: int| views[i]@)
}

/// The first index from `start` on at which `id` stands, or the length
/// of `ids` if it stands nowhere.
pub open spec fn index_of(ids: Seq<PlayerId>, id: PlayerId, start: int) -> int
    decreases ids.len() - start,
{
    if start < 0 || start >= ids.len() {
        ids.len() as int
    } else if ids[start] == id {
        start
    } else {
        index_of(ids, id, start + 1)
    }
}

/// `ids` without the first occurrence of `id`.
pub open spec fn without(ids: Seq<PlayerId>, id: PlayerId) -> Seq<PlayerId> {
    if index_of(ids, id, 0) < ids.len() {
        ids.remove(index_of(ids, id, 0))
    } else {
        ids
    }
}

/// Model of a session.
pub struct SessionModel {
    /// The registered connections, in the order in which they came.
    pub connections: Seq<PlayerId>,
    pub game: GameModel,
}

impl SessionModel {
    /// At most two connections take part, and the game is one that an
    /// engine can reach.
    pub open spec fn valid(self) -> bool {
        self.connections.len() <= 2 && self.game.valid()
    }

    /// Whether a further connection is registered.
    pub open spec fn has_room(self) -> bool {
        self.connections.len() < 2
    }

    /// Whether `id` is a registered connection.
    pub open spec fn is_registered(self, id: PlayerId) -> bool {
        index_of(self.connections, id, 0) < self.connections.len()
    }

    /// Whether the next connection is the one that completes the pair.
    pub open spec fn awaits_second(self) -> bool {
        self.connections.len() == 1
    }

    /// The session after `id` connected. With two connections registered
    /// nothing changes. Otherwise `id` is registered; and if that makes
    /// two, the newcomer and then the connection that waited ask for a
    /// seat, and the game is started on a deck shuffled to `shuffled`.
    /// The newcomer asks first: one who waited may sit already, and then
    /// takes no second seat.
    pub open spec fn connect(self, id: PlayerId, shuffled: Seq<Card>) -> SessionModel {
        if !self.has_room() {
            self
        } else if self.awaits_second() {
            SessionModel {
                connections: self.connections.push(id),
                game: seat_all(self.game.add_player(id), self.connections).start(shuffled),
            }
        } else {
            SessionModel { connections: self.connections.push(id), game: self.game }
        }
    }

    /// The session after an action came in from `id`: the game after the
    /// command if `id` is registered, else nothing changed.
    pub open spec fn act(self, id: PlayerId, action: PlayerAction) -> SessionModel {
        if self.is_registered(id) {
            SessionModel {
                connections: self.connections,
                game: self.game.process(GameCommand { player_id: id, action }),
            }
        } else {
            self
        }
    }

    /// The session after `id` disconnected: `id` is no longer registered;
    /// and if a connection remains, the game is a new one at which those
    /// that remain are seated, not started.
    pub open spec fn disconnect(self, id: PlayerId) -> SessionModel {
        let left = without(self.connections, id);
        if left.len() > 0 {
            SessionModel { connections: left, game: seat_all(new_game(), left) }
        } else {
            SessionModel { connections: left, game: self.game }
        }
    }
}

/// A session: up to two registered connections and the engine they share.
#[derive(Debug)]
pub struct Session {
    /// The registered connections, in the order in which they came.
    pub connections: Vec<PlayerId>,
    pub game: GameState,
}

impl View for Session {
    type V = SessionModel;

    open spec fn view(&self) -> SessionModel {
        SessionModel { connections: self.connections@, game: self.game@ }
    }
}

/// Seating players moves no card, touches neither deck nor piles nor
/// flags, and leaves at least one player at the table if anybody asked.
pub proof fn lemma_seat_all(g: GameModel, ids: Seq<PlayerId>)
    ensures
        seat_all(g, ids).total_cards() == g.total_cards(),
        seat_all(g, ids).deck == g.deck,
        seat_all(g, ids).center_piles == g.center_piles,
        seat_all(g, ids).game_started == g.game_started,
        seat_all(g, ids).winner == g.winner,
        seat_all(g, ids).players.len() >= g.players.len(),
        ids.len() > 0 ==> seat_all(g, ids).players.len() >= 1,
        g.wf() ==> seat_all(g, ids).wf(),
    decreases ids.len(),
{
    if ids.len() > 0 {
        lemma_seat_all(g, ids.drop_last());
        crate::laws::lemma_add_player_keeps_cards(seat_all(g, ids.drop_last()), ids.last());
    }
}

/// Seats each of `ids` in turn, as far as there are seats.
fn seat_each(game: &mut GameState, ids: &Vec<PlayerId>)
    ensures
        final(game)@ == seat_all(old(game)@, ids@),
{
    let ghost g0 = game@;
    let mut i: usize = 0;
    proof {
        assert(ids@.take(0) =~= Seq::empty());
    }
    while i < ids.len()
        invariant
            i <= ids@.len(),
            game@ == seat_all(g0, ids@.take(i as int)),
        decreases ids@.len() - i,
    {
        game.add_player(ids[i]);
        proof {
            assert(ids@.take(i + 1).drop_last() =~= ids@.take(i as int));
        }
        i += 1;
    }
    proof {
        assert(ids@.take(ids@.len() as int) =~= ids@);
    }
}

/// What each of `ids` in turn is shown of the game.
fn views_for(game: &GameState, ids: &Vec<PlayerId>) -> (views: Vec<PlayerView>)
    requires
        ids@.len() > 0 ==> game@.players.len() >= 1,
    ensures
        views_model(views@) == views_of(game@, ids@),
{
    let mut views: Vec<PlayerView> = Vec::with_capacity(ids.len());
    let mut i: usize = 0;
    while i < ids.len()
        invariant
            i <= ids@.len(),
            game@.players.len() >= 1 || ids@.len() == 0,
            views@.len() == i,
            forall|j: int| 0 <= j < i ==> views@[j]@ == game@.player_view(ids@[j]),
        decreases ids@.len() - i,
    {
        views.push(game.create_player_view(ids[i]));
        i += 1;
    }
    proof {
        assert(views_model(views@) =~= views_of(game@, ids@));
    }
    views
}

impl Session {
    /// A session with no connection and a new engine.
    pub fn new() -> (session: Session)
        ensures
            session@.connections == Seq::<PlayerId>::empty(),
            session@.game == new_game(),
            session@.valid(),
    {
        Session { connections: Vec::new(), game: GameState::new() }
    }

    /// Takes in a new connection. With two connections registered it is
    /// left out and nothing changes. Otherwise it is registered; if it is
    /// the second, the newcomer and then the one that waited ask for a
    /// seat, the game is started, and the result holds what each of the
    /// two is to be sent, in the order in which they came. In every other
    /// case nothing is to be sent.
    pub fn connect(&mut self, id: PlayerId) -> (views: Vec<PlayerView>)
        ensures
            exists|shuffled: Seq<Card>|
                is_shuffle_of(shuffled, old(self)@.game.deck) && final(self)@ == old(
                    self,
                )@.connect(id, shuffled),
            views_model(views@) == if old(self)@.awaits_second() {
                views_of(final(self)@.game, final(self)@.connections)
            } else {
                Seq::empty()
            },
            old(self)@.valid() ==> final(self)@.valid(),
    {
        if self.connections.len() >= 2 {
            proof {
                assert(self@ == old(self)@.connect(id, old(self)@.game.deck));
            }
            let views: Vec<PlayerView> = Vec::new();
            proof {
                assert(views_model(views@) =~= Seq::empty());
            }
            return views;
        }
        if self.connections.len() == 1 {
            self.game.add_player(id);
            seat_each(&mut self.game, &self.connections);
            self.connections.push(id);
            let ghost seated = self.game@;
            proof {
                lemma_seat_all(old(self)@.game.add_player(id), old(self)@.connections);
            }
            self.game.start_game();
            proof {
                if seated.players.len() == 2 {
                    let shuffled = choose|s: Seq<Card>|
                        is_shuffle_of(s, seated.deck) && self.game@ == seated.start(s);
                    assert(self@ == old(self)@.connect(id, shuffled));
                    crate::laws::lemma_start_keeps_cards(seated, shuffled);
                } else {
                    assert(self@ == old(self)@.connect(id, old(self)@.game.deck));
                }
            }
            views_for(&self.game, &self.connections)
        } else {
            self.connections.push(id);
            proof {
                assert(self@ == old(self)@.connect(id, old(self)@.game.deck));
            }
            let views: Vec<PlayerView> = Vec::new();
            proof {
                assert(views_model(views@) =~= Seq::empty());
            }
            views
        }
    }

    /// Takes in a new connection under an identity made up for it, and
    /// returns that identity with what is to be sent: all that `connect`
    /// does, for an identity that nobody chose.
    pub fn accept(&mut self) -> (taken: (PlayerId, Vec<PlayerView>))
        ensures
            exists|shuffled: Seq<Card>|
                is_shuffle_of(shuffled, old(self)@.game.deck) && final(self)@ == old(
                    self,
                )@.connect(taken.0, shuffled),
            views_model(taken.1@) == if old(self)@.awaits_second() {
                views_of(final(self)@.game, final(self)@.connections)
            } else {
                Seq::empty()
            },
            old(self)@.valid() ==> final(self)@.valid(),
    {
        let id = fresh_identity();
        let views = self.connect(id);
        (id, views)
    }

    /// The index of the first registered connection `id`, if it is one.
    fn position_of(&self, id: PlayerId) -> (found: Option<usize>)
        ensures
            match found {
                Some(i) => i < self@.connections.len() && i == index_of(self@.connections, id, 0),
                None => index_of(self@.connections, id, 0) == self@.connections.len(),
            },
    {
        let n = self.connections.len();
        let mut i: usize = 0;
        while i < n
            invariant
                i <= n,
                n == self.connections@.len(),
                index_of(self@.connections, id, 0) == index_of(self@.connections, id, i as int),
            decreases n - i,
        {
            if self.connections[i] == id {
                return Some(i);
            }
            i += 1;
        }
        None
    }

    /// Takes in an action from the connection `id`. If `id` is registered
    /// the command is applied to the game, and the result holds what each
    /// registered connection is to be sent, the sender included, in the
    /// order in which they came. From any other connection nothing
    /// changes and nothing is to be sent.
    ///
    /// A registered connection may act only once somebody is seated.
    pub fn handle_action(&mut self, id: PlayerId, action: PlayerAction) -> (views: Vec<PlayerView>)
        requires
            old(self)@.is_registered(id) ==> old(self)@.game.players.len() >= 1,
        ensures
            final(self)@ == old(self)@.act(id, action),
            views_model(views@) == if old(self)@.is_registered(id) {
                views_of(final(self)@.game, final(self)@.connections)
            } else {
                Seq::empty()
            },
            old(self)@.valid() ==> final(self)@.valid(),
    {
        if self.position_of(id).is_none() {
            let views: Vec<PlayerView> = Vec::new();
            proof {
                assert(views_model(views@) =~= Seq::empty());
            }
            return views;
        }
        let command = GameCommand { player_id: id, action };
        proof {
            crate::laws::lemma_process_keeps_cards(self.game@, command);
        }
        self.game.process_command(command);
        views_for(&self.game, &self.connections)
    }

    /// Takes out the connection `id`. If a connection remains, the engine
    /// is replaced by a new one at which those that remain are seated, and
    /// the result holds what each of them is to be sent. If none remains,
    /// the engine stays as it is and nothing is to be sent.
    pub fn disconnect(&mut self, id: PlayerId) -> (views: Vec<PlayerView>)
        ensures
            final(self)@ == old(self)@.disconnect(id),
            views_model(views@) == if final(self)@.connections.len() > 0 {
                views_of(final(self)@.game, final(self)@.connections)
            } else {
                Seq::empty()
            },
            old(self)@.valid() ==> final(self)@.valid(),
    {
        if let Some(index) = self.position_of(id) {
            self.connections.remove(index);
        }
        if self.connections.len() > 0 {
            self.game = GameState::new();
            seat_each(&mut self.game, &self.connections);
            proof {
                lemma_seat_all(new_game(), self.connections@);
            }
            views_for(&self.game, &self.connections)
        } else {
            let views: Vec<PlayerView> = Vec::new();
            proof {
                assert(views_model(views@) =~= Seq::empty());
            }
            views
        }
    }
}

} // verus!

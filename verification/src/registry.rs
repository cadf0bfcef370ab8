//! The session registry: the single shared game session, its up-to-two
//! participant send-handles, join and capacity rules, broadcasting, and the
//! dispatch of inbound protocol frames onto the game state.

use vstd::prelude::*;

use crate::game::{spec_make_move, Game, GameView};
use crate::protocol::{
    dec_val, has_prefix, is_first_colon, lemma_exists_first_colon, move_frame, parse_message,
    parse_usize, parseable, winner_frame, InboundMessage, ProtocolError,
};
use tokio::sync::mpsc::UnboundedSender;
use tungstenite::Message;

verus! {

#[verifier::external_type_specification]
#[verifier::external_body]
#[verifier::reject_recursive_types(T)]
pub struct ExUnboundedSender<T>(UnboundedSender<T>);

#[verifier::external_type_specification]
#[verifier::external_body]
pub struct ExMessage(Message);

/// Relies on tokio's `UnboundedSender::send`, the text wrapped as one frame
/// by tungstenite's `Message::text`: queues the frame for the receiving
/// writer task. The result is `false` only when the receiver is gone.
#[verifier::external_body]
fn send_text_frame(sender: &UnboundedSender<Message>, text: &str) -> (ok: bool) {
    sender.send(Message::text(text.to_owned())).is_ok()
}

/// Relies on `Clone` for tokio's `UnboundedSender`: the clone queues frames
/// to the same receiver as the original.
#[verifier::external_body]
fn clone_sender(sender: &UnboundedSender<Message>) -> (r: UnboundedSender<Message>) {
    sender.clone()
}

/// What a join does to the roster: a roster already holding two or more
/// participants is cleared, and the joiner is turned away; otherwise the
/// joiner is appended.
pub open spec fn join_roster<S>(roster: Seq<S>, s: S) -> Seq<S> {
    if roster.len() >= 2 {
        Seq::empty()
    } else {
        roster.push(s)
    }
}

/// The mark a MOVE acts as: `o` when the username equals the stored player
/// o, else `x` — an unknown username falls back to `x`.
pub open spec fn spec_acting_mark(player_o: Seq<char>, username: Seq<char>) -> char {
    if username == player_o {
        'o'
    } else {
        'x'
    }
}

/// What processing a split MOVE payload — username `user`, cell text `cell`
/// — does: a cell that is no machine-sized numeral is fatal and changes
/// nothing; one outside the board is fatal and changes nothing; otherwise
/// the move is attempted by the mark `user` resolves to, and the game steps
/// as `spec_make_move` says, whether the move was accepted or rejected.
pub open spec fn spec_move_outcome(
    g0: GameView,
    user: Seq<char>,
    cell: Seq<char>,
    g1: GameView,
    r: Result<(), ProtocolError>,
) -> bool {
    &&& (!parseable(cell) ==> r == Err::<(), ProtocolError>(ProtocolError::MalformedMove) && g1
        == g0)
    &&& (parseable(cell) && dec_val(cell) >= 9 ==> r == Err::<(), ProtocolError>(
        ProtocolError::CellOutOfRange,
    ) && g1 == g0)
    &&& (parseable(cell) && dec_val(cell) < 9 ==> r == Ok::<(), ProtocolError>(()) && g1
        =~= spec_make_move(g0, spec_acting_mark(g0.player_o, user), dec_val(cell)).0)
}

/// The roster a join starts from: the registry's roster, or the empty one
/// where no session exists yet.
pub open spec fn roster_or_empty(m: ChannelManager) -> Seq<UnboundedSender<Message>> {
    if m.session_exists() {
        m.roster()
    } else {
        Seq::<UnboundedSender<Message>>::empty()
    }
}

/// What a START under the name `user` does to the registry: the session
/// exists afterwards; some handle went through the join rule against the
/// prior roster (the empty one where no session existed); and the join
/// recorded `user` as player x on an empty roster, as player o on a roster
/// of one, and on a full roster — which it cleared — as neither.
pub open spec fn spec_join_outcome(
    pre: ChannelManager,
    post: ChannelManager,
    user: Seq<char>,
) -> bool {
    &&& post.session_exists()
    &&& (exists|s: UnboundedSender<Message>|
        post.roster() =~= #[trigger] join_roster(roster_or_empty(pre), s))
    &&& post.game.board@ == pre.game.board@
    &&& post.game.current_turn == pre.game.current_turn
    &&& post.game.player_x@ == (if roster_or_empty(pre).len() == 0 {
        user
    } else {
        pre.game.player_x@
    })
    &&& post.game.player_o@ == (if roster_or_empty(pre).len() == 1 {
        user
    } else {
        pre.game.player_o@
    })
}

/// The single shared session: the participants' outbound send-handles, and
/// the one game they play. The roster is absent until the session is
/// created.
pub struct ChannelManager {
    /// The session's participant send-handles, in join order; `None` until
    /// the session is created.
    pub senders: Option<Vec<UnboundedSender<Message>>>,
    /// The game the participants share.
    pub game: Game,
}

impl ChannelManager {
    /// The session has been created.
    pub open spec fn session_exists(&self) -> bool {
        self.senders is Some
    }

    /// The participants' send-handles, in join order.
    pub open spec fn roster(&self) -> Seq<UnboundedSender<Message>> {
        self.senders->Some_0@
    }

    /// The game is well formed and the roster never exceeds two handles.
    pub open spec fn wf(&self) -> bool {
        &&& self.game.wf()
        &&& self.session_exists() ==> self.roster().len() <= 2
    }

    /// A fresh registry: no session yet, an empty game with `x` to move.
    pub fn new() -> (r: ChannelManager)
        ensures
            r.wf(),
            !r.session_exists(),
            r.game.current_turn == 'x',
            r.game.player_x@ == Seq::<char>::empty(),
            r.game.player_o@ == Seq::<char>::empty(),
            r.game.board@.len() == 9,
            forall|i: int| 0 <= i < 9 ==> r.game.board@[i] is None,
    {
        ChannelManager { senders: None, game: Game::new(String::new(), String::new(), 'x') }
    }

    /// Create the session if it is absent; idempotent, and the game is never
    /// touched.
    pub fn create_channel(&mut self)
        requires
            old(self).wf(),
        ensures
            final(self).wf(),
            final(self).session_exists(),
            final(self).game == old(self).game,
            old(self).session_exists() ==> *final(self) == *old(self),
            !old(self).session_exists() ==> final(self).roster() =~= Seq::<
                UnboundedSender<Message>,
            >::empty(),
    {
        if self.senders.is_none() {
            self.senders = Some(Vec::new());
        }
    }

    /// Join a participant: with the session absent this is a no-op; a full
    /// roster is cleared and the joiner turned away, the game left untouched;
    /// otherwise the joiner is appended, the first joiner recorded as player
    /// x and the second as player o.
    pub fn add_sender_to_channel(&mut self, sender: UnboundedSender<Message>, user: &str)
        requires
            old(self).wf(),
        ensures
            final(self).wf(),
            final(self).session_exists() == old(self).session_exists(),
            !old(self).session_exists() ==> *final(self) == *old(self),
            old(self).session_exists() ==> ({
                let ros = old(self).roster();
                &&& final(self).roster() =~= join_roster(ros, sender)
                &&& final(self).game.board@ == old(self).game.board@
                &&& final(self).game.current_turn == old(self).game.current_turn
                &&& final(self).game.player_x@ == (if ros.len() == 0 {
                    user@
                } else {
                    old(self).game.player_x@
                })
                &&& final(self).game.player_o@ == (if ros.len() == 1 {
                    user@
                } else {
                    old(self).game.player_o@
                })
            }),
    {
        let taken = self.senders.take();
        match taken {
            Some(mut roster) => {
                if roster.len() >= 2 {
                    roster.clear();
                    self.senders = Some(roster);
                    return;
                }
                if roster.len() == 0 {
                    self.game.player_x = String::from_str(user);
                } else {
                    self.game.player_o = String::from_str(user);
                }
                roster.push(sender);
                self.senders = Some(roster);
            },
            None => {},
        }
    }

    /// Send one text frame to every registered participant, in join order.
    /// A send fails only when that participant's writer task is gone; the
    /// failure is ignored and the handle kept, so a dead participant costs
    /// nothing but the frames it misses.
    pub fn broadcast(&self, message: &str) {
        match &self.senders {
            Some(senders) => {
                let mut i: usize = 0;
                while i < senders.len()
                    invariant
                        i <= senders@.len(),
                    decreases senders@.len() - i,
                {
                    let _delivered: bool = send_text_frame(&senders[i], message);
                    i += 1;
                }
            },
            None => {},
        }
    }

    /// Process a MOVE: resolve the acting mark by username, parse the cell,
    /// attempt the move, and broadcast the outcome — any validation error
    /// text, then a winner announcement if a line is complete, then the
    /// rendered board with the acting username and raw cell text. A cell
    /// that is no machine-sized numeral, or lies outside the board, is fatal
    /// to the caller's connection and nothing is broadcast or changed.
    pub fn handle_move(&mut self, username: &String, cell_text: &String) -> (r: Result<
        (),
        ProtocolError,
    >)
        requires
            old(self).wf(),
        ensures
            final(self).wf(),
            final(self).senders == old(self).senders,
            spec_move_outcome(old(self).game@, username@, cell_text@, final(self).game@, r),
    {
        let mark = if self.game.player_o == *username {
            'o'
        } else {
            'x'
        };
        let cell = match parse_usize(cell_text.as_str()) {
            Some(c) => c,
            None => {
                return Err(ProtocolError::MalformedMove);
            },
        };
        if cell >= 9 {
            return Err(ProtocolError::CellOutOfRange);
        }
        let move_result = self.game.make_move(mark, cell);
        if let Err(e) = move_result {
            let msg = e.message();
            self.broadcast(msg.as_str());
        }
        if let Some(winner) = self.game.check_winner() {
            let name = if winner == 'x' {
                self.game.player_x.clone()
            } else {
                self.game.player_o.clone()
            };
            let frame = winner_frame(&name);
            self.broadcast(frame.as_str());
        }
        let board = self.game.print_board();
        let frame = move_frame(username, cell_text, &board);
        self.broadcast(frame.as_str());
        Ok(())
    }

    /// Dispatch one inbound text frame: `START:` creates the session if
    /// needed and joins the sender under the given username; `MOVE:` is
    /// processed as a move; a `MOVE:` without its separating colon is fatal
    /// to the connection; anything else is ignored.
    pub fn handle_text(&mut self, sender: &UnboundedSender<Message>, text: &str) -> (r: Result<
        (),
        ProtocolError,
    >)
        requires
            old(self).wf(),
        ensures
            final(self).wf(),
            has_prefix(text@, "START:"@) ==> r == Ok::<(), ProtocolError>(()) && spec_join_outcome(
                *old(self),
                *final(self),
                text@.subrange("START:"@.len() as int, text@.len() as int),
            ),
            !has_prefix(text@, "START:"@) && has_prefix(text@, "MOVE:"@) ==> ({
                let p = text@.subrange("MOVE:"@.len() as int, text@.len() as int);
                &&& final(self).senders == old(self).senders
                &&& ((forall|j: int| 0 <= j < p.len() ==> p[j] != ':') ==> r == Err::<
                    (),
                    ProtocolError,
                >(ProtocolError::MalformedMove) && final(self).game == old(self).game)
                &&& (forall|i: int|
                    is_first_colon(p, i) ==> spec_move_outcome(
                        old(self).game@,
                        p.subrange(0, i),
                        p.subrange(i + 1, p.len() as int),
                        final(self).game@,
                        r,
                    ))
            }),
            !has_prefix(text@, "START:"@) && !has_prefix(text@, "MOVE:"@) ==> r == Ok::<
                (),
                ProtocolError,
            >(()) && *final(self) == *old(self),
    {
        let msg = parse_message(text);
        proof {
            if !has_prefix(text@, "START:"@) && has_prefix(text@, "MOVE:"@) {
                let p = text@.subrange("MOVE:"@.len() as int, text@.len() as int);
                if exists|j: int| 0 <= j < p.len() && (#[trigger] p[j]) == ':' {
                    let j = choose|j: int| 0 <= j < p.len() && (#[trigger] p[j]) == ':';
                    lemma_exists_first_colon(p, j);
                    let i0 = choose|i: int| is_first_colon(p, i);
                    assert(is_first_colon(p, i0));
                    assert(msg is Move);
                } else {
                    assert(msg == InboundMessage::MalformedMove);
                }
            }
        }
        match msg {
            InboundMessage::Start { username } => {
                self.create_channel();
                let joiner = clone_sender(sender);
                self.add_sender_to_channel(joiner, username.as_str());
                proof {
                    assert(spec_join_outcome(*old(self), *self, username@)) by {
                        assert(self.roster() =~= join_roster(roster_or_empty(*old(self)), joiner));
                    }
                }
                Ok(())
            },
            InboundMessage::Move { username, cell_text } => self.handle_move(
                &username,
                &cell_text,
            ),
            InboundMessage::MalformedMove => Err(ProtocolError::MalformedMove),
            InboundMessage::Other => Ok(()),
        }
    }
}

/// Law: a join that finds the roster full clears it, and the join right
/// after lands as a first joiner — the roster then holds exactly the new
/// participant, whom the join contract records as player x.
pub proof fn lemma_reset_then_first_join<S>(roster: Seq<S>, s1: S, s2: S)
    requires
        roster.len() >= 2,
    ensures
        join_roster(roster, s1).len() == 0,
        join_roster(join_roster(roster, s1), s2) =~= seq![s2],
{
}

/// Law: a MOVE whose username differs from the stored player o — unknown
/// usernames included — acts as mark x.
pub proof fn lemma_unknown_username_acts_as_x(player_o: Seq<char>, username: Seq<char>)
    requires
        username != player_o,
    ensures
        spec_acting_mark(player_o, username) == 'x',
{
}

} // verus!

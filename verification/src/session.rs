//! The session protocol: two peers take turns over a byte stream, one move
//! per byte, and each keeps a board that equals the other's.
//!
//! The session decides; its caller does the reading and writing. The caller
//! looks at the phase, reads a line of local input or a byte from the peer,
//! hands it over, and carries out what comes back.
use crate::board::Board;
use crate::game::{in_turns, input_verdict, replay, stopped_in_time, Game, InputError};
use crate::grid::{empty_grid, is_open, placed, Grid};
use crate::player::{
    lemma_empty_grid_open, mover_at, opponent_of, outcome_of, token_of, Outcome, Player,
};
use vstd::prelude::*;

verus! {

/// How a session ended.
#[derive(PartialEq, Eq, Debug, Clone, Copy, Structural)]
pub enum Ending {
    Won(Player),
    Draw,
    /// The stream failed, or the peer sent a move that cannot be made.
    TransportError,
}

/// Where a session stands.
#[derive(PartialEq, Eq, Debug, Clone, Copy, Structural)]
pub enum Phase {
    AwaitingLocalMove,
    AwaitingRemoteMove,
    Finished(Ending),
}

/// Why a session did not take what it was handed.
#[derive(PartialEq, Eq, Debug, Clone, Copy, Structural)]
pub enum SessionError {
    /// The local line names no column, or a full one. Ask again.
    InvalidColumn,
    /// The local line holds no number. Ask again.
    ParseError,
    /// The stream failed or the peer's move cannot be made. The session is over.
    TransportError,
    /// The session was not waiting for this.
    OutOfTurn,
}

/// One side of a game played with a remote peer.
pub struct Session {
    game: Game,
    local: Player,
    phase: Phase,
}

/// A session as its contracts see it.
pub struct SessionView {
    pub grid: Grid,
    pub moves: Seq<(u8, usize)>,
    pub local: Player,
    pub phase: Phase,
}

/// The phase after an accepted move that left grid `g`: finished if the game
/// is won or drawn, the win counting first; else `next`.
pub open spec fn phase_after(g: Grid, next: Phase) -> Phase {
    match outcome_of(g) {
        Outcome::Won(p) => Phase::Finished(Ending::Won(p)),
        Outcome::Draw => Phase::Finished(Ending::Draw),
        Outcome::InProgress => next,
    }
}

/// The session after a line of local input, and what the caller is told:
/// the byte to send to the peer, or why no piece was placed.
pub open spec fn after_local_line(s: SessionView, text: Seq<char>) -> (
    SessionView,
    Result<u8, SessionError>,
) {
    if s.phase != Phase::AwaitingLocalMove {
        (s, Err(SessionError::OutOfTurn))
    } else {
        match input_verdict(s.grid, text) {
            Err(InputError::ParseError) => (s, Err(SessionError::ParseError)),
            Err(InputError::InvalidColumn) => (s, Err(SessionError::InvalidColumn)),
            Ok(col) => {
                let token = token_of(s.local);
                let grid = placed(s.grid, col as int, token);
                (
                    SessionView {
                        grid,
                        moves: s.moves.push((token, col)),
                        local: s.local,
                        phase: phase_after(grid, Phase::AwaitingRemoteMove),
                    },
                    Ok(col as u8),
                )
            },
        }
    }
}

/// The session after a byte from the peer. The byte is the column counted
/// from 0. One that names no column, or a full one, ends the session and
/// leaves the grid as it was.
pub open spec fn after_remote_byte(s: SessionView, byte: u8) -> (
    SessionView,
    Result<(), SessionError>,
) {
    if s.phase != Phase::AwaitingRemoteMove {
        (s, Err(SessionError::OutOfTurn))
    } else if is_open(s.grid, byte as int) {
        let token = token_of(opponent_of(s.local));
        let grid = placed(s.grid, byte as int, token);
        (
            SessionView {
                grid,
                moves: s.moves.push((token, byte as usize)),
                local: s.local,
                phase: phase_after(grid, Phase::AwaitingLocalMove),
            },
            Ok(()),
        )
    } else {
        (
            SessionView { phase: Phase::Finished(Ending::TransportError), ..s },
            Err(SessionError::TransportError),
        )
    }
}

/// The session after the stream failed: over, unless it was over already.
pub open spec fn after_transport_failure(s: SessionView) -> SessionView {
    if s.phase is Finished {
        s
    } else {
        SessionView { phase: Phase::Finished(Ending::TransportError), ..s }
    }
}

impl Session {
    pub closed spec fn view(&self) -> SessionView {
        SessionView {
            grid: self.game.board@,
            moves: self.game.moves@,
            local: self.local,
            phase: self.phase,
        }
    }

    /// The record is in order, and the phase fits the board: while a move is
    /// awaited the game is in progress and it is the turn of the side that
    /// is waited for; a session that ended in a win or a draw shows it.
    pub closed spec fn wf(&self) -> bool {
        &&& self.game.wf()
        &&& stopped_in_time(self.game.moves@)
        &&& match self.phase {
            Phase::AwaitingLocalMove => outcome_of(self.game.board@) is InProgress
                && self.game.mover() == self.local,
            Phase::AwaitingRemoteMove => outcome_of(self.game.board@) is InProgress
                && self.game.mover() == opponent_of(self.local),
            Phase::Finished(Ending::Won(p)) => outcome_of(self.game.board@) == Outcome::Won(p),
            Phase::Finished(Ending::Draw) => outcome_of(self.game.board@) == Outcome::Draw,
            Phase::Finished(Ending::TransportError) => true,
        }
    }

    /// What `wf` means to a caller, over the view.
    pub proof fn lemma_wf(&self)
        requires
            self.wf(),
        ensures
            in_turns(self@.moves),
            stopped_in_time(self@.moves),
            self@.grid == replay(self@.moves),
            self@.phase == Phase::AwaitingLocalMove ==> outcome_of(self@.grid) is InProgress
                && mover_at(self@.moves.len() as int) == self@.local,
            self@.phase == Phase::AwaitingRemoteMove ==> outcome_of(self@.grid) is InProgress
                && mover_at(self@.moves.len() as int) == opponent_of(self@.local),
            self@.phase matches Phase::Finished(Ending::Won(p)) ==> outcome_of(self@.grid)
                == Outcome::Won(p),
            self@.phase == Phase::Finished(Ending::Draw) ==> outcome_of(self@.grid)
                == Outcome::Draw,
    {
    }

    /// A session for the side `local`. `One` moves first, so that side
    /// starts by awaiting its own move, the other by awaiting the peer's.
    pub fn new(local: Player) -> (session: Session)
        ensures
            session.wf(),
            session@.grid == empty_grid(),
            session@.moves.len() == 0,
            session@.local == local,
            session@.phase == if local == Player::One {
                Phase::AwaitingLocalMove
            } else {
                Phase::AwaitingRemoteMove
            },
    {
        let phase = match local {
            Player::One => Phase::AwaitingLocalMove,
            Player::Two => Phase::AwaitingRemoteMove,
        };
        let session = Session { game: Game::new(), local, phase };
        proof {
            lemma_empty_grid_open();
        }
        session
    }

    pub fn phase(&self) -> (phase: Phase)
        ensures
            phase == self@.phase,
    {
        self.phase
    }

    pub fn local_player(&self) -> (p: Player)
        ensures
            p == self@.local,
    {
        self.local
    }

    pub fn board(&self) -> (board: &Board)
        ensures
            board@ == self@.grid,
    {
        &self.game.board
    }

    pub fn game(&self) -> (game: &Game)
        ensures
            game.board@ == self@.grid,
            game.moves@ == self@.moves,
            self.wf() ==> game.wf(),
    {
        &self.game
    }

    /// Takes a line of local input: the column's number counted from 1.
    /// Where it places a piece, the result is the byte to send to the peer.
    /// Where it does not, nothing has changed and the caller asks again.
    pub fn local_line(&mut self, text: &str) -> (res: Result<u8, SessionError>)
        requires
            old(self).wf(),
        ensures
            final(self).wf(),
            (final(self)@, res) == after_local_line(old(self)@, text@),
            res is Err ==> final(self)@ == old(self)@,
    {
        match self.phase {
            Phase::AwaitingLocalMove => {},
            _ => {
                return Err(SessionError::OutOfTurn);
            },
        }
        match self.game.play_text(text) {
            Ok(col) => {
                self.phase = self.phase_from_board(Phase::AwaitingRemoteMove);
                Ok(col as u8)
            },
            Err(InputError::ParseError) => Err(SessionError::ParseError),
            Err(InputError::InvalidColumn) => Err(SessionError::InvalidColumn),
        }
    }

    /// Takes the byte that the peer sent: the column counted from 0.
    pub fn remote_byte(&mut self, byte: u8) -> (res: Result<(), SessionError>)
        requires
            old(self).wf(),
        ensures
            final(self).wf(),
            (final(self)@, res) == after_remote_byte(old(self)@, byte),
            res is Err ==> final(self)@.grid == old(self)@.grid && final(self)@.moves == old(
                self,
            )@.moves,
    {
        match self.phase {
            Phase::AwaitingRemoteMove => {},
            _ => {
                return Err(SessionError::OutOfTurn);
            },
        }
        match self.game.play(byte as usize) {
            Ok(()) => {
                self.phase = self.phase_from_board(Phase::AwaitingLocalMove);
                Ok(())
            },
            Err(_) => {
                self.phase = Phase::Finished(Ending::TransportError);
                Err(SessionError::TransportError)
            },
        }
    }

    /// Takes note that reading from or writing to the stream failed.
    pub fn transport_failed(&mut self)
        requires
            old(self).wf(),
        ensures
            final(self).wf(),
            final(self)@ == after_transport_failure(old(self)@),
    {
        match self.phase {
            Phase::Finished(_) => {},
            _ => {
                self.phase = Phase::Finished(Ending::TransportError);
            },
        }
    }

    fn phase_from_board(&self, next: Phase) -> (phase: Phase)
        ensures
            phase == phase_after(self.game.board@, next),
    {
        match self.game.board.outcome() {
            Outcome::Won(p) => Phase::Finished(Ending::Won(p)),
            Outcome::Draw => Phase::Finished(Ending::Draw),
            Outcome::InProgress => next,
        }
    }
}

} // verus!

//! The environment in which a machine learns to play the second player
//! against random moves of the first.
use crate::board::Board;
use crate::bot::column_of_action;
use crate::game::choose_column;
use crate::grid::{empty_grid, is_full, is_open, placed, winner_of, Grid};
use crate::player::lemma_empty_grid_open;
use vstd::prelude::*;

verus! {

/// What one step gave: the board as 42 cells, the action taken, what it
/// earned, and whether the episode is over.
#[derive(Debug)]
pub struct Step {
    pub obs: Vec<u8>,
    pub action: i64,
    pub reward: i64,
    pub is_done: bool,
}

pub struct Env {
    board: Board,
}

/// Whether the machine's move on grid `g` is accepted.
pub open spec fn action_accepted(g: Grid, action: i64) -> bool {
    column_of_action(action) matches Some(col) && is_open(g, col as int)
}

/// The grid after the machine's move, before any reply.
pub open spec fn after_action(g: Grid, action: i64) -> Grid {
    if action_accepted(g, action) {
        placed(g, action as int, 2)
    } else {
        g
    }
}

/// Whether a reply of the first player follows the machine's move: the
/// move was accepted and left the game open.
pub open spec fn reply_follows(g: Grid, action: i64) -> bool {
    let h = after_action(g, action);
    action_accepted(g, action) && winner_of(h) is None && !is_full(h)
}

/// The grid after a step: the machine's move, then the reply where one follows.
pub open spec fn after_step(g: Grid, action: i64, reply: Option<usize>) -> Grid {
    let h = after_action(g, action);
    match reply {
        Some(col) if reply_follows(g, action) => placed(h, col as int, 1),
        _ => h,
    }
}

/// What a step earns: 1 is lost for an accepted move and 5 for a refused
/// one; on top of that 100 are won if the machine has four in a row after
/// the step, and 100 lost if its opponent has.
pub open spec fn reward_of(g: Grid, action: i64, reply: Option<usize>) -> int {
    let base: int = if action_accepted(g, action) {
        -1
    } else {
        -5
    };
    match winner_of(after_step(g, action, reply)) {
        Some(1u8) => base - 100,
        Some(2u8) => base + 100,
        _ => base,
    }
}

/// The episode is over when the machine's own move ended the game.
pub open spec fn done_after(g: Grid, action: i64) -> bool {
    let h = after_action(g, action);
    action_accepted(g, action) && (winner_of(h) is Some || is_full(h))
}

/// `step` is what one step gave on grid `g`, for `action` and `reply`, and
/// `after` is the grid that it left.
pub open spec fn is_step(
    g: Grid,
    action: i64,
    reply: Option<usize>,
    after: Grid,
    step: Step,
) -> bool {
    &&& after == after_step(g, action, reply)
    &&& step.action == action
    &&& step.reward == reward_of(g, action, reply)
    &&& step.is_done == done_after(g, action)
    &&& shows(step.obs@, after)
}

/// The 42 cells show the grid: the cell of column `c` and row `r` at `c * 6 + r`.
pub open spec fn shows(obs: Seq<u8>, g: Grid) -> bool {
    &&& obs.len() == 42
    &&& forall|c: int, r: int| 0 <= c < 7 && 0 <= r < 6 ==> obs[c * 6 + r] == g[c][r]
}

impl Env {
    pub closed spec fn view(&self) -> Grid {
        self.board@
    }

    pub fn new() -> (env: Env)
        ensures
            env@ == empty_grid(),
    {
        Env { board: Board::new() }
    }

    /// Starts an episode: an empty board, on which the first player has
    /// made one move, into a column picked at random.
    pub fn reset(&mut self) -> (obs: Vec<u8>)
        ensures
            exists|col: int| 0 <= col < 7 && final(self)@ == placed(empty_grid(), col, 1),
            shows(obs@, final(self)@),
    {
        let fresh = Board::new();
        let cols = fresh.available_columns();
        let reply = choose_column(&cols);
        proof {
            lemma_empty_grid_open();
            if reply is Some {
                assert(is_open(fresh@, reply->0 as int));
            }
        }
        match reply {
            Some(col) => self.reset_with(col),
            None => self.reset_with(0),
        }
    }

    /// Starts an episode with the first player's move into column `reply`.
    /// A `reply` that names no column leaves the board empty.
    pub fn reset_with(&mut self, reply: usize) -> (obs: Vec<u8>)
        ensures
            final(self)@ == placed(empty_grid(), reply as int, 1),
            shows(obs@, final(self)@),
    {
        self.board = Board::new();
        let _ = self.board.place(reply, 1);
        self.board.flatten()
    }

    /// One step of an episode: the machine's move into column `action`,
    /// counted from 0, and, where that move was accepted and left the game
    /// open, a reply of the first player into a column picked at random
    /// among those that still take a piece.
    pub fn step(&mut self, action: i64) -> (step: Step)
        ensures
            exists|reply: Option<usize>|
                {
                    &&& reply is Some <==> reply_follows(old(self)@, action)
                    &&& reply matches Some(col) ==> is_open(
                        after_action(old(self)@, action),
                        col as int,
                    )
                    &&& #[trigger] is_step(old(self)@, action, reply, final(self)@, step)
                },
    {
        let reply = self.pick_reply(action);
        let step = self.step_with(action, reply);
        assert(is_step(old(self)@, action, reply, self@, step));
        step
    }

    /// Picks the reply to the machine's move, where one follows.
    fn pick_reply(&self, action: i64) -> (reply: Option<usize>)
        ensures
            reply is Some <==> reply_follows(self@, action),
            reply matches Some(col) ==> is_open(after_action(self@, action), col as int),
    {
        let mut ahead = self.board;
        if action < 0 || action >= 7 {
            return None;
        }
        if ahead.place(action as usize, 2).is_err() || ahead.finished() {
            return None;
        }
        let cols = ahead.available_columns();
        let reply = choose_column(&cols);
        proof {
            if reply is Some {
                assert(is_open(ahead@, reply->0 as int));
            }
        }
        reply
    }

    /// One step with the reply given: the machine's move into column
    /// `action`, then, where that move was accepted and left the game open,
    /// the first player's move into column `reply`.
    pub fn step_with(&mut self, action: i64, reply: Option<usize>) -> (step: Step)
        ensures
            is_step(old(self)@, action, reply, final(self)@, step),
    {
        let mut is_done = false;
        let mut reward: i64 = 0;
        let accepted = action >= 0 && action < 7 && self.board.place(action as usize, 2).is_ok();
        if accepted {
            reward = reward - 1;
            if self.board.finished() {
                is_done = true;
            } else {
                match reply {
                    Some(col) => {
                        let _ = self.board.place(col, 1);
                    },
                    None => {},
                }
            }
        } else {
            reward = reward - 5;
        }
        if let Some(winner) = self.board.winner() {
            if winner == 1 {
                reward = reward - 100;
            } else if winner == 2 {
                reward = reward + 100;
            }
        }
        Step { obs: self.board.flatten(), action, reward, is_done }
    }

    /// The number of actions: one per column.
    pub fn action_space(&self) -> (n: i64)
        ensures
            n == 7,
    {
        7
    }

    /// The places of an observation: 0 up to 41.
    pub fn observation_space(&self) -> (places: Vec<i64>)
        ensures
            places@.len() == 42,
            forall|i: int| 0 <= i < 42 ==> places@[i] == i,
    {
        let mut places: Vec<i64> = Vec::new();
        let mut i: i64 = 0;
        while i < 42
            invariant
                0 <= i <= 42,
                places@.len() == i,
                forall|k: int| 0 <= k < i ==> places@[k] == k,
            decreases 42 - i,
        {
            places.push(i);
            i += 1;
        }
        places
    }
}

impl Step {
    /// This step with another observation in place of its own.
    pub fn copy_with_obs(&self, obs: &Vec<u8>) -> (step: Step)
        ensures
            step.obs@ == obs@,
            step.action == self.action,
            step.reward == self.reward,
            step.is_done == self.is_done,
    {
        Step { obs: obs.clone(), action: self.action, reward: self.reward, is_done: self.is_done }
    }
}

} // verus!

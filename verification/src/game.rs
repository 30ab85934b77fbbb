//! The deterministic tick engine and the decision half of the peer
//! synchronization barrier.
//!
//! The engine owns the board, one or two snakes, the pending-target queue
//! and the tick counter, and runs the per-tick update algorithm.  It does
//! no I/O: packets to send are returned as values, and packets received
//! are handed in by the caller.  Given the same inputs, two engines
//! compute identical outcomes — the whole point of the lockstep design —
//! and `spec_tick` is the mathematical statement of that computation.

use std::collections::VecDeque;

use vstd::pervasive::unreached;
use vstd::prelude::*;

use crate::board::{
    blank_cells, blank_grid, cell, cells_marked, grid_full, grid_wf, lemma_blank_cells,
    lemma_write_cell, on_grid, picked_blank_cell, write_cell, Board, BOARD_SIZE, CRASH_CHAR,
    OPPONENT_CHAR, PLAYER_CHAR, TARGET_CHAR,
};
use crate::direction::{direction_code, direction_of_code, opposite, Direction};
use crate::packet::{be_bytes_u64, u64_from_be, Opcode, Packet};
use crate::snake::{body_ok, shifted, step, Snake};
use crate::util::{next_state, RandomSource};

verus! {

/// How a finished game ended, with a human-readable reason.
pub enum GameResult {
    Win(String),
    Lose(String),
    Draw(String),
}

/// The fatal error classes.  None of them is retried: the caller prints a
/// diagnostic and stops.
#[derive(Clone, Copy, Debug, PartialEq, Eq, Structural)]
pub enum GameError {
    /// A packet whose payload cannot mean anything: a direction code
    /// above 3, a target off the grid, a sync token shorter than its
    /// counter.
    MalformedPacket,
    /// A packet that breaks the lockstep protocol: a sync token for a
    /// different tick, or a sync packet outside the barrier.
    ProtocolViolation,
    /// The peer closed the connection (a zero-byte read).
    PeerDisconnected,
    /// Fewer bytes were transferred than required.
    ShortTransfer,
    /// A peer address that is neither loopback nor private-range.
    InvalidAddress,
}

/// A tick's verdict, at the specification level: either the game goes on,
/// or it ended with the given reason text.
pub ghost enum Outcome {
    Continue,
    Win(Seq<char>),
    Lose(Seq<char>),
    Draw(Seq<char>),
}

/// The abstract value of a returned `Option<GameResult>`.
pub open spec fn result_view(r: Option<GameResult>) -> Outcome {
    match r {
        None => Outcome::Continue,
        Some(GameResult::Win(m)) => Outcome::Win(m@),
        Some(GameResult::Lose(m)) => Outcome::Lose(m@),
        Some(GameResult::Draw(m)) => Outcome::Draw(m@),
    }
}

/// The whole engine state as mathematical values.
pub ghost struct GameView {
    /// The grid, row by row.
    pub board: Seq<Seq<char>>,
    /// The player snake's body; index 0 is the head.
    pub player_body: Seq<(usize, usize)>,
    /// The player snake's heading.
    pub player_heading: Direction,
    /// The opponent snake, when the game is networked.
    pub opponent: Option<(Seq<(usize, usize)>, Direction)>,
    /// The target queue; index 0 is the live target.
    pub targets: Seq<(usize, usize)>,
    /// Received packets waiting to be processed, oldest first.
    pub pending: Seq<Packet>,
    /// The tick counter.
    pub tick: u64,
}

/// Everything one tick computes from a state and a random-source state.
pub ghost struct TickOutcome {
    /// The grid afterwards.
    pub board: Seq<Seq<char>>,
    /// The player snake afterwards.
    pub player_body: Seq<(usize, usize)>,
    /// The opponent snake afterwards.
    pub opponent: Option<(Seq<(usize, usize)>, Direction)>,
    /// The target queue afterwards.
    pub targets: Seq<(usize, usize)>,
    /// The random-source state afterwards.
    pub rng: u64,
    /// The verdict.
    pub result: Outcome,
    /// The freshly placed target to broadcast, if the player grew.
    pub sent: Option<(usize, usize)>,
}

/// The terminal verdict when the board fills up as a side effect of
/// growth: decided by current body length, equal lengths being a draw.
pub open spec fn size_outcome(player_len: int, opponent_len: int) -> Outcome {
    if player_len > opponent_len {
        Outcome::Win("board full, player size wins"@)
    } else if player_len < opponent_len {
        Outcome::Lose("board full, opponent size wins"@)
    } else {
        Outcome::Draw("board full, same size"@)
    }
}

/// The last leg of a tick, reached when no crash ended it: growth of the
/// player if it reached the live target, placement and broadcast of a new
/// target, and the board-full endings.  `g` is the state before the tick;
/// `b` the board after both snakes advanced and were re-marked;
/// `opponent` the opponent after its advance (and possible growth);
/// `targets` the target queue after a possible opponent consumption;
/// `opponent_grow` suppresses player growth when the opponent already
/// consumed the live target this tick.
pub open spec fn spec_tick_growth(
    g: GameView,
    b: Seq<Seq<char>>,
    opponent: Option<(Seq<(usize, usize)>, Direction)>,
    targets: Seq<(usize, usize)>,
    opponent_grow: bool,
    rng: u64,
) -> TickOutcome {
    let spb = shifted(g.player_body, g.player_heading);
    let ptail = g.player_body.last();
    let osize = match g.opponent {
        Some((ob, _)) => ob.len() as int,
        None => 0,
    };
    if !opponent_grow && spb[0] == g.targets[0] {
        let gpb = spb.push(ptail);
        let b7 = write_cell(b, ptail, PLAYER_CHAR);
        if blank_cells(b7).len() == 0 {
            let result = match g.opponent {
                Some(_) => size_outcome(gpb.len() as int, osize),
                None => Outcome::Win("board full"@),
            };
            (TickOutcome {
                board: b7,
                player_body: gpb,
                opponent,
                targets,
                rng,
                result,
                sent: None,
            })
        } else {
            let s2 = next_state(rng);
            let nt = picked_blank_cell(b7, s2)->0;
            (TickOutcome {
                board: write_cell(b7, nt, TARGET_CHAR),
                player_body: gpb,
                opponent,
                targets: targets.push(nt).drop_first(),
                rng: s2,
                result: Outcome::Continue,
                sent: Some(nt),
            })
        }
    } else {
        (TickOutcome {
            board: b,
            player_body: spb,
            opponent,
            targets,
            rng,
            result: Outcome::Continue,
            sent: None,
        })
    }
}

/// One tick of the update algorithm, as a pure function of the state
/// before it and the random-source state.  The returned outcome is what
/// `SnakeGame::update` promises to compute, step for step: tail cells
/// cleared, snakes advanced with wrap-around, the simultaneous head crash
/// checked first, then the player's collision, then the opponent's, then
/// growth and target replacement.
pub open spec fn spec_tick(g: GameView, rng: u64) -> TickOutcome {
    let pb = g.player_body;
    let pd = g.player_heading;
    let ptail = pb.last();
    let spb = shifted(pb, pd);
    let ph = spb[0];
    let t = g.targets[0];
    let b2 = write_cell(write_cell(g.board, ptail, ' '), t, TARGET_CHAR);
    match g.opponent {
        None => {
            let pixel = cell(b2, ph);
            if pixel == PLAYER_CHAR || pixel == OPPONENT_CHAR {
                (TickOutcome {
                    board: write_cell(b2, ph, CRASH_CHAR),
                    player_body: spb,
                    opponent: None,
                    targets: g.targets,
                    rng,
                    result: Outcome::Lose("player crash"@),
                    sent: None,
                })
            } else {
                spec_tick_growth(
                    g,
                    write_cell(b2, ph, PLAYER_CHAR),
                    None,
                    g.targets,
                    false,
                    rng,
                )
            }
        },
        Some((ob, od)) => {
            let otail = ob.last();
            let sob = shifted(ob, od);
            let oh = sob[0];
            let b3 = write_cell(b2, otail, ' ');
            if ph == oh {
                (TickOutcome {
                    board: write_cell(b3, ph, CRASH_CHAR),
                    player_body: spb,
                    opponent: Some((sob, od)),
                    targets: g.targets,
                    rng,
                    result: Outcome::Draw("heads crash"@),
                    sent: None,
                })
            } else {
                let pixel = cell(b3, ph);
                if pixel == PLAYER_CHAR || pixel == OPPONENT_CHAR {
                    (TickOutcome {
                        board: write_cell(write_cell(b3, oh, OPPONENT_CHAR), ph, CRASH_CHAR),
                        player_body: spb,
                        opponent: Some((sob, od)),
                        targets: g.targets,
                        rng,
                        result: Outcome::Lose("player crash"@),
                        sent: None,
                    })
                } else {
                    let b4 = write_cell(b3, ph, PLAYER_CHAR);
                    let opixel = cell(b4, oh);
                    if opixel == OPPONENT_CHAR || opixel == PLAYER_CHAR {
                        (TickOutcome {
                            board: write_cell(b4, oh, CRASH_CHAR),
                            player_body: spb,
                            opponent: Some((sob, od)),
                            targets: g.targets,
                            rng,
                            result: Outcome::Win("opponent crash"@),
                            sent: None,
                        })
                    } else {
                        let b5 = write_cell(b4, oh, OPPONENT_CHAR);
                        if oh == t {
                            let gob = sob.push(otail);
                            let b6 = write_cell(b5, otail, OPPONENT_CHAR);
                            if grid_full(b6) {
                                (TickOutcome {
                                    board: b6,
                                    player_body: spb,
                                    opponent: Some((gob, od)),
                                    targets: g.targets,
                                    rng,
                                    result: size_outcome(spb.len() as int, gob.len() as int),
                                    sent: None,
                                })
                            } else {
                                spec_tick_growth(
                                    g,
                                    b6,
                                    Some((gob, od)),
                                    g.targets.drop_first(),
                                    true,
                                    rng,
                                )
                            }
                        } else {
                            spec_tick_growth(g, b5, Some((sob, od)), g.targets, false, rng)
                        }
                    }
                }
            }
        },
    }
}

/// Where a peer's own snake starts: the server in the far corner, the
/// client near the origin.
pub open spec fn mp_head(is_server: bool) -> (usize, usize) {
    if is_server {
        ((BOARD_SIZE - 2) as usize, (BOARD_SIZE - 2) as usize)
    } else {
        (1usize, 1usize)
    }
}

/// The heading a peer's own snake starts with.
pub open spec fn mp_heading(is_server: bool) -> Direction {
    if is_server {
        Direction::Left
    } else {
        Direction::Right
    }
}

/// Where the first target sits: the middle of the board.
pub open spec fn mp_target() -> (usize, usize) {
    ((BOARD_SIZE / 2) as usize, (BOARD_SIZE / 2) as usize)
}

/// Write `ch` into each of `cells`, in order.
fn mark_cells(board: &mut Board, cells: &Vec<(usize, usize)>, ch: char)
    requires
        old(board).wf(),
        forall|k: int| 0 <= k < cells@.len() ==> on_grid(#[trigger] cells@[k]),
    ensures
        final(board)@ == cells_marked(old(board)@, cells@, ch),
        final(board).wf(),
{
    let ghost b0 = board@;
    let mut i: usize = 0;
    while i < cells.len()
        invariant
            board.wf(),
            i <= cells@.len(),
            forall|k: int| 0 <= k < cells@.len() ==> on_grid(#[trigger] cells@[k]),
            board@ == cells_marked(b0, cells@.subrange(0, i as int), ch),
        decreases cells@.len() - i,
    {
        board.mark(cells[i], ch);
        proof {
            let pre = cells@.subrange(0, i as int);
            let cur = cells@.subrange(0, i as int + 1);
            assert(cur.drop_last() =~= pre);
            assert(cur.last() == cells@[i as int]);
        }
        i += 1;
    }
    proof {
        assert(cells@.subrange(0, cells@.len() as int) =~= cells@);
    }
}

/// A snake whose body is exactly `body`, facing `heading`.
fn snake_from(body: &Vec<(usize, usize)>, heading: Direction) -> (r: Snake)
    requires
        body_ok(body@),
    ensures
        r.segs() == body@,
        r.heading() == heading,
        r.wf(),
{
    let mut snake = Snake::new(body[0], heading);
    let mut i: usize = 1;
    while i < body.len()
        invariant
            body_ok(body@),
            1 <= i <= body@.len(),
            snake.segs() == body@.subrange(0, i as int),
            snake.heading() == heading,
            snake.wf(),
        decreases body@.len() - i,
    {
        snake.grow(body[i]);
        proof {
            assert(snake.segs() =~= body@.subrange(0, i as int + 1));
        }
        i += 1;
    }
    proof {
        assert(body@.subrange(0, body@.len() as int) =~= body@);
    }
    snake
}

/// The engine: board, snakes, target queue, pending packets, tick
/// counter.  All mutation happens through the tick-loop methods below.
pub struct SnakeGame {
    board: Board,
    player: Snake,
    target: VecDeque<(usize, usize)>,
    opponent: Option<Snake>,
    queue: VecDeque<Packet>,
    tick_id: u64,
}

impl View for SnakeGame {
    type V = GameView;

    closed spec fn view(&self) -> GameView {
        GameView {
            board: self.board@,
            player_body: self.player.segs(),
            player_heading: self.player.heading(),
            opponent: match self.opponent {
                Some(o) => Some((o.segs(), o.heading())),
                None => None,
            },
            targets: self.target@,
            pending: self.queue@,
            tick: self.tick_id,
        }
    }
}

impl SnakeGame {
    /// The engine's invariant: the grid is well-shaped, the snakes are
    /// non-empty and on the grid, and every queued target is on the grid.
    pub open spec fn inv(&self) -> bool {
        &&& grid_wf(self@.board)
        &&& body_ok(self@.player_body)
        &&& (self@.opponent matches Some(o) ==> body_ok(o.0))
        &&& (forall|k: int| 0 <= k < self@.targets.len() ==> on_grid(#[trigger] self@.targets[k]))
    }

    /// Whether an opponent exists, i.e. the game is networked.
    pub fn is_multiplayer(&self) -> (r: bool)
        ensures
            r == (self@.opponent is Some),
    {
        self.opponent.is_some()
    }

    /// The current tick counter.
    pub fn tick_id(&self) -> (r: u64)
        ensures
            r == self@.tick,
    {
        self.tick_id
    }

    /// The number of queued targets.
    pub fn target_len(&self) -> (r: usize)
        ensures
            r == self@.targets.len(),
    {
        self.target.len()
    }

    /// The live target: the front of the target queue.
    pub fn live_target(&self) -> (r: (usize, usize))
        requires
            self@.targets.len() >= 1,
        ensures
            r == self@.targets[0],
    {
        self.target[0]
    }

    /// The board, for rendering and inspection.
    pub fn board(&self) -> (r: &Board)
        ensures
            r@ == self@.board,
    {
        &self.board
    }

    /// The player snake, for inspection.
    pub fn player(&self) -> (r: &Snake)
        ensures
            r.segs() == self@.player_body,
            r.heading() == self@.player_heading,
    {
        &self.player
    }

    /// The opponent snake, when one exists.
    pub fn opponent(&self) -> (r: Option<&Snake>)
        ensures
            match r {
                Some(o) => self@.opponent matches Some(v) && o.segs() == v.0
                    && o.heading() == v.1,
                None => self@.opponent is None,
            },
    {
        self.opponent.as_ref()
    }

    /// The number of received packets still waiting to be processed.
    pub fn pending_len(&self) -> (r: usize)
        ensures
            r == self@.pending.len(),
    {
        self.queue.len()
    }

    /// An engine with explicitly chosen snakes and target, tick 0 and an
    /// empty pending queue.  The board shows the given layout: the player
    /// body, then the opponent body, then the target, marked over a blank
    /// grid in that order.
    pub fn from_layout(
        player_body: Vec<(usize, usize)>,
        player_heading: Direction,
        opponent: Option<(Vec<(usize, usize)>, Direction)>,
        target: (usize, usize),
    ) -> (r: SnakeGame)
        requires
            body_ok(player_body@),
            opponent matches Some(o) ==> body_ok(o.0@),
            on_grid(target),
        ensures
            r.inv(),
            r@.player_body == player_body@,
            r@.player_heading == player_heading,
            match opponent {
                Some(o) => r@.opponent matches Some(v) && v.0 == o.0@ && v.1 == o.1,
                None => r@.opponent is None,
            },
            r@.targets == seq![target],
            r@.pending == Seq::<Packet>::empty(),
            r@.tick == 0,
            r@.board == write_cell(
                cells_marked(
                    cells_marked(blank_grid(), player_body@, PLAYER_CHAR),
                    match opponent {
                        Some(o) => o.0@,
                        None => Seq::<(usize, usize)>::empty(),
                    },
                    OPPONENT_CHAR,
                ),
                target,
                TARGET_CHAR,
            ),
    {
        let mut board = Board::new();
        mark_cells(&mut board, &player_body, PLAYER_CHAR);
        let player = snake_from(&player_body, player_heading);
        let opp: Option<Snake> = match &opponent {
            Some(o) => {
                mark_cells(&mut board, &o.0, OPPONENT_CHAR);
                Some(snake_from(&o.0, o.1))
            },
            None => {
                proof {
                    assert(cells_marked(board@, Seq::<(usize, usize)>::empty(), OPPONENT_CHAR)
                        == board@);
                }
                None
            },
        };
        board.mark(target, TARGET_CHAR);
        let mut deque: VecDeque<(usize, usize)> = VecDeque::new();
        deque.push_back(target);
        proof {
            assert(deque@ =~= seq![target]);
        }
        SnakeGame {
            board,
            player,
            target: deque,
            opponent: opp,
            queue: VecDeque::new(),
            tick_id: 0,
        }
    }

    /// A single-player game: the snake starts on a uniformly drawn cell
    /// with a random heading, and the first target on a second draw among
    /// the cells left blank.  Three values are consumed from the random
    /// source, so a fixed seed reproduces the same opening exactly.
    pub fn new_singleplayer(rng: &mut RandomSource) -> (r: SnakeGame)
        ensures
            r.inv(),
            ({
                let s1 = next_state(old(rng).state());
                let head = picked_blank_cell(blank_grid(), s1)->0;
                let s2 = next_state(s1);
                let d = direction_of_code((next_state(s1) % 4) as u8);
                let b1 = write_cell(blank_grid(), head, PLAYER_CHAR);
                let s3 = next_state(s2);
                let tgt = picked_blank_cell(b1, s3)->0;
                &&& final(rng).state() == s3
                &&& r@.board == write_cell(b1, tgt, TARGET_CHAR)
                &&& r@.player_body == seq![head]
                &&& r@.player_heading == d
                &&& r@.opponent is None
                &&& r@.targets == seq![tgt]
                &&& r@.pending == Seq::<Packet>::empty()
                &&& r@.tick == 0
            }),
    {
        let mut board = Board::new();
        proof {
            lemma_blank_cells(board@);
            assert(cell(board@, (0usize, 0usize)) == ' ');
            assert(board@[0][0] == ' ');
            assert(blank_cells(board@).len() > 0);
        }
        let head = match board.random_position(rng) {
            Some(h) => h,
            None => unreached(),
        };
        let direction = Direction::random(rng);
        let player = Snake::new(head, direction);
        board.mark(head, PLAYER_CHAR);
        proof {
            lemma_write_cell(blank_grid(), head, PLAYER_CHAR);
            let q0: (usize, usize) = if head == (0usize, 0usize) {
                (0usize, 1usize)
            } else {
                (0usize, 0usize)
            };
            assert(cell(blank_grid(), q0) == ' ');
            assert(cell(board@, q0) == ' ');
            assert(board@[q0.0 as int][q0.1 as int] == ' ');
            lemma_blank_cells(board@);
            assert(blank_cells(board@).len() > 0);
        }
        let target = match board.random_position(rng) {
            Some(t) => t,
            None => unreached(),
        };
        board.mark(target, TARGET_CHAR);
        let mut deque: VecDeque<(usize, usize)> = VecDeque::new();
        deque.push_back(target);
        proof {
            assert(deque@ =~= seq![target]);
        }
        SnakeGame {
            board,
            player,
            target: deque,
            opponent: None,
            queue: VecDeque::new(),
            tick_id: 0,
        }
    }

    /// The fixed two-player opening: the client's snake starts at (1, 1)
    /// heading Right, the server's at the mirrored corner heading Left,
    /// and the first target sits in the middle of the board.  Each peer
    /// is the player of its own engine, so the two engines start as exact
    /// mirror images of one another.
    pub fn new_multiplayer(is_server: bool) -> (r: SnakeGame)
        ensures
            r.inv(),
            r@.player_body == seq![mp_head(is_server)],
            r@.player_heading == mp_heading(is_server),
            r@.opponent matches Some(o) && o.0 == seq![mp_head(!is_server)] && o.1 == mp_heading(
                !is_server,
            ),
            r@.targets == seq![mp_target()],
            r@.pending == Seq::<Packet>::empty(),
            r@.tick == 0,
            r@.board == write_cell(
                write_cell(
                    write_cell(blank_grid(), mp_head(is_server), PLAYER_CHAR),
                    mp_head(!is_server),
                    OPPONENT_CHAR,
                ),
                mp_target(),
                TARGET_CHAR,
            ),
    {
        let near: (usize, usize) = (1, 1);
        let far: (usize, usize) = (BOARD_SIZE - 2, BOARD_SIZE - 2);
        let player_head = if is_server { far } else { near };
        let opponent_head = if is_server { near } else { far };
        let player_heading = if is_server { Direction::Left } else { Direction::Right };
        let opponent_heading = if is_server { Direction::Right } else { Direction::Left };
        let target: (usize, usize) = (BOARD_SIZE / 2, BOARD_SIZE / 2);
        let mut player_body: Vec<(usize, usize)> = Vec::new();
        player_body.push(player_head);
        let mut opponent_body: Vec<(usize, usize)> = Vec::new();
        opponent_body.push(opponent_head);
        proof {
            assert(player_body@ =~= seq![mp_head(is_server)]);
            assert(opponent_body@ =~= seq![mp_head(!is_server)]);
        }
        let game = SnakeGame::from_layout(
            player_body,
            player_heading,
            Some((opponent_body, opponent_heading)),
            target,
        );
        proof {
            let pb = seq![mp_head(is_server)];
            let ob = seq![mp_head(!is_server)];
            assert(pb.drop_last() =~= Seq::<(usize, usize)>::empty());
            assert(ob.drop_last() =~= Seq::<(usize, usize)>::empty());
            assert(cells_marked(blank_grid(), Seq::<(usize, usize)>::empty(), PLAYER_CHAR)
                == blank_grid());
            let b1 = cells_marked(blank_grid(), pb, PLAYER_CHAR);
            assert(b1 == write_cell(blank_grid(), mp_head(is_server), PLAYER_CHAR));
            assert(cells_marked(b1, Seq::<(usize, usize)>::empty(), OPPONENT_CHAR) == b1);
            let b2 = cells_marked(b1, ob, OPPONENT_CHAR);
            assert(b2 == write_cell(b1, mp_head(!is_server), OPPONENT_CHAR));
        }
        game
    }

    /// Start a tick: the counter goes up by one.  Both peers do this in
    /// lockstep, so the counters agree on every tick.
    pub fn begin_tick(&mut self)
        requires
            old(self).inv(),
            old(self)@.tick < u64::MAX,
        ensures
            final(self)@ == (GameView { tick: (old(self)@.tick + 1) as u64, ..old(self)@ }),
            final(self).inv(),
    {
        self.tick_id = self.tick_id + 1;
    }

    /// Steer a snake: the player's own (`own`) or, on a received event,
    /// the opponent's.  A 180-degree reversal leaves the heading alone.
    pub fn control(&mut self, own: bool, direction: Direction)
        requires
            old(self).inv(),
            own || old(self)@.opponent is Some,
        ensures
            own ==> final(self)@ == (GameView {
                player_heading: if direction == opposite(old(self)@.player_heading) {
                    old(self)@.player_heading
                } else {
                    direction
                },
                ..old(self)@
            }),
            !own ==> final(self)@ == (GameView {
                opponent: Some(
                    (
                        (old(self)@.opponent->0).0,
                        if direction == opposite((old(self)@.opponent->0).1) {
                            (old(self)@.opponent->0).1
                        } else {
                            direction
                        },
                    ),
                ),
                ..old(self)@
            }),
            final(self).inv(),
    {
        if own {
            self.player.control(direction);
        } else {
            match &mut self.opponent {
                Some(opponent) => {
                    opponent.control(direction);
                },
                None => unreached(),
            }
        }
    }

    /// One tick of the game: advance both snakes, resolve crashes and
    /// growth, and replace a consumed target.  Exactly the outcome of
    /// `spec_tick` on the state and random source before the call; in
    /// particular, two peers running this on identical states compute
    /// identical outcomes.  The second component of the result is a
    /// freshly placed target that a networked caller must broadcast; the
    /// caller also renders and paces — none of that happens here.
    pub fn update(&mut self, rng: &mut RandomSource) -> (r: (
        Option<GameResult>,
        Option<(usize, usize)>,
    ))
        requires
            old(self).inv(),
            old(self)@.targets.len() >= 1,
        ensures
            final(self).inv(),
            ({
                let out = spec_tick(old(self)@, old(rng).state());
                &&& final(self)@.board == out.board
                &&& final(self)@.player_body == out.player_body
                &&& final(self)@.player_heading == old(self)@.player_heading
                &&& final(self)@.opponent == out.opponent
                &&& final(self)@.targets == out.targets
                &&& final(self)@.pending == old(self)@.pending
                &&& final(self)@.tick == old(self)@.tick
                &&& final(rng).state() == out.rng
                &&& result_view(r.0) == out.result
                &&& r.1 == out.sent
            }),
    {
        let ghost g0 = self@;
        let ghost s0 = rng.state();

        let ptail = self.player.tail();
        self.board.unmark(ptail);
        self.player.update();
        let phead = self.player.head();

        let target = self.target[0];
        self.board.mark(target, TARGET_CHAR);

        let mut opponent_tail: Option<(usize, usize)> = None;
        let mut opponent_head: Option<(usize, usize)> = None;
        match &mut self.opponent {
            Some(opponent) => {
                let otail = opponent.tail();
                opponent.update();
                opponent_tail = Some(otail);
                opponent_head = Some(opponent.head());
            },
            None => {},
        }
        match opponent_tail {
            Some(otail) => {
                self.board.unmark(otail);
            },
            None => {},
        }

        let heads_crash = match opponent_head {
            Some(ohead) => phead.0 == ohead.0 && phead.1 == ohead.1,
            None => false,
        };
        if heads_crash {
            self.board.mark(phead, CRASH_CHAR);
            return (Some(GameResult::Draw("heads crash".to_owned())), None);
        }

        let pixel = self.board.value(phead);
        if pixel == PLAYER_CHAR || pixel == OPPONENT_CHAR {
            match opponent_head {
                Some(ohead) => {
                    self.board.mark(ohead, OPPONENT_CHAR);
                },
                None => {},
            }
            self.board.mark(phead, CRASH_CHAR);
            return (Some(GameResult::Lose("player crash".to_owned())), None);
        }

        let mut opponent_grow = false;
        self.board.mark(phead, PLAYER_CHAR);

        match opponent_head {
            Some(ohead) => {
                let opixel = self.board.value(ohead);
                if opixel == OPPONENT_CHAR || opixel == PLAYER_CHAR {
                    self.board.mark(ohead, CRASH_CHAR);
                    return (Some(GameResult::Win("opponent crash".to_owned())), None);
                }
                self.board.mark(ohead, OPPONENT_CHAR);
                if ohead.0 == target.0 && ohead.1 == target.1 {
                    let otail = match opponent_tail {
                        Some(t) => t,
                        None => unreached(),
                    };
                    match &mut self.opponent {
                        Some(opponent) => {
                            opponent.grow(otail);
                        },
                        None => unreached(),
                    }
                    self.board.mark(otail, OPPONENT_CHAR);
                    if self.board.is_full() {
                        let psize = self.player.size();
                        let osize = match &self.opponent {
                            Some(opponent) => opponent.size(),
                            None => unreached(),
                        };
                        if psize > osize {
                            return (
                                Some(GameResult::Win("board full, player size wins".to_owned())),
                                None,
                            );
                        } else if psize < osize {
                            return (
                                Some(GameResult::Lose("board full, opponent size wins".to_owned())),
                                None,
                            );
                        } else {
                            return (
                                Some(GameResult::Draw("board full, same size".to_owned())),
                                None,
                            );
                        }
                    }
                    self.target.pop_front();
                    opponent_grow = true;
                }
            },
            None => {},
        }

        if !opponent_grow && phead.0 == target.0 && phead.1 == target.1 {
            self.player.grow(ptail);
            self.board.mark(ptail, PLAYER_CHAR);

            let new_target = self.board.random_position(rng);
            match new_target {
                None => {
                    match &self.opponent {
                        Some(opponent) => {
                            let psize = self.player.size();
                            let osize = opponent.size();
                            if psize > osize {
                                return (
                                    Some(
                                        GameResult::Win("board full, player size wins".to_owned()),
                                    ),
                                    None,
                                );
                            } else if psize < osize {
                                return (
                                    Some(
                                        GameResult::Lose(
                                            "board full, opponent size wins".to_owned(),
                                        ),
                                    ),
                                    None,
                                );
                            } else {
                                return (
                                    Some(GameResult::Draw("board full, same size".to_owned())),
                                    None,
                                );
                            }
                        },
                        None => {
                            return (Some(GameResult::Win("board full".to_owned())), None);
                        },
                    }
                },
                Some(nt) => {
                    self.board.mark(nt, TARGET_CHAR);
                    self.target.push_back(nt);
                    self.target.pop_front();
                    proof {
                        assert(self.target@ =~= g0.targets.push(nt).drop_first());
                    }
                    return (None, Some(nt));
                },
            }
        }

        (None, None)
    }

    /// The barrier token for the current tick: a Sync packet carrying the
    /// tick counter as eight big-endian bytes.
    pub fn sync_packet(&self) -> (r: Packet)
        ensures
            r.op() == Opcode::Sync,
            r.payload() == be_bytes_u64(self@.tick),
            r.wf(),
    {
        let tick = self.tick_id;
        let mut packet = Packet::new(Opcode::Sync, 8);
        let mut data: Vec<u8> = Vec::with_capacity(8);
        data.push((tick >> 56) as u8);
        data.push((tick >> 48) as u8);
        data.push((tick >> 40) as u8);
        data.push((tick >> 32) as u8);
        data.push((tick >> 24) as u8);
        data.push((tick >> 16) as u8);
        data.push((tick >> 8) as u8);
        data.push(tick as u8);
        proof {
            assert(data@ =~= be_bytes_u64(tick));
        }
        packet.push_data(data.as_slice());
        proof {
            assert(packet.payload() =~= be_bytes_u64(tick));
        }
        packet
    }

    /// A NewDirection packet carrying the heading's one-byte wire code.
    pub fn control_packet(direction: Direction) -> (r: Packet)
        ensures
            r.op() == Opcode::NewDirection,
            r.payload() == seq![direction_code(direction)],
            r.wf(),
    {
        let mut packet = Packet::new(Opcode::NewDirection, 1);
        let mut data: Vec<u8> = Vec::with_capacity(1);
        data.push(direction.code());
        packet.push_data(data.as_slice());
        proof {
            assert(packet.payload() =~= seq![direction_code(direction)]);
        }
        packet
    }

    /// A NewTarget packet carrying the target's row and column, one byte
    /// each.
    pub fn target_packet(target: (usize, usize)) -> (r: Packet)
        requires
            on_grid(target),
        ensures
            r.op() == Opcode::NewTarget,
            r.payload() == seq![target.0 as u8, target.1 as u8],
            r.wf(),
    {
        let mut packet = Packet::new(Opcode::NewTarget, 2);
        let mut data: Vec<u8> = Vec::with_capacity(2);
        data.push(target.0 as u8);
        data.push(target.1 as u8);
        packet.push_data(data.as_slice());
        proof {
            assert(packet.payload() =~= seq![target.0 as u8, target.1 as u8]);
        }
        packet
    }

    /// Feed one packet received inside the barrier (after this peer sent
    /// its own Sync token).  A non-Sync packet belongs to this tick's
    /// events and is queued for later processing: `Ok(false)`, keep
    /// receiving.  A Sync token carrying this peer's own tick counter
    /// satisfies the barrier: `Ok(true)`.  Since both peers increment
    /// their counters identically in lockstep, a Sync token with any
    /// other value breaks the protocol invariant and is fatal, as is a
    /// Sync token too short to carry a counter.
    pub fn absorb(&mut self, packet: Packet) -> (r: Result<bool, GameError>)
        requires
            old(self).inv(),
        ensures
            final(self).inv(),
            packet.op() != Opcode::Sync ==> r == Ok::<bool, GameError>(false) && final(self)@
                == (GameView { pending: old(self)@.pending.push(packet), ..old(self)@ }),
            packet.op() == Opcode::Sync && packet.payload().len() != 8 ==> r == Err::<
                bool,
                GameError,
            >(GameError::MalformedPacket) && final(self)@ == old(self)@,
            packet.op() == Opcode::Sync && packet.payload().len() == 8 ==> {
                if u64_from_be(packet.payload()) == old(self)@.tick {
                    r == Ok::<bool, GameError>(true) && final(self)@ == old(self)@
                } else {
                    r == Err::<bool, GameError>(GameError::ProtocolViolation) && final(self)@
                        == old(self)@
                }
            },
    {
        match packet.opcode() {
            Opcode::Sync => {
                let data = packet.data();
                if data.len() != 8 {
                    return Err(GameError::MalformedPacket);
                }
                let tick: u64 = ((data[0] as u64) << 56) | ((data[1] as u64) << 48)
                    | ((data[2] as u64) << 40) | ((data[3] as u64) << 32)
                    | ((data[4] as u64) << 24) | ((data[5] as u64) << 16)
                    | ((data[6] as u64) << 8) | (data[7] as u64);
                if tick == self.tick_id {
                    Ok(true)
                } else {
                    Err(GameError::ProtocolViolation)
                }
            },
            _ => {
                self.queue.push_back(packet);
                Ok(false)
            },
        }
    }

    /// The oldest packet queued by the barrier, if any.
    pub fn pop_pending(&mut self) -> (r: Option<Packet>)
        requires
            old(self).inv(),
        ensures
            final(self).inv(),
            old(self)@.pending.len() == 0 ==> r is None && final(self)@ == old(self)@,
            old(self)@.pending.len() > 0 ==> r == Some(old(self)@.pending[0]) && final(self)@
                == (GameView { pending: old(self)@.pending.drop_first(), ..old(self)@ }),
    {
        let r = self.queue.pop_front();
        proof {
            if old(self)@.pending.len() > 0 {
                assert(self.queue@ =~= old(self)@.pending.drop_first());
            }
        }
        r
    }

    /// Apply one cross-tick event to local state: a NewDirection packet
    /// steers the opponent (reversals silently ignored, as always), a
    /// NewTarget packet appends to the target queue.  A Sync packet does
    /// not belong here — the barrier consumes those — and is a protocol
    /// violation.  A direction code above 3, a target off the grid, or a
    /// payload too short for its opcode is a malformed packet; nothing
    /// later could apply such an event.
    pub fn process(&mut self, packet: &Packet) -> (r: Result<(), GameError>)
        requires
            old(self).inv(),
            old(self)@.opponent is Some,
        ensures
            final(self).inv(),
            packet.op() == Opcode::Sync ==> r == Err::<(), GameError>(
                GameError::ProtocolViolation,
            ) && final(self)@ == old(self)@,
            packet.op() == Opcode::NewDirection ==> {
                if packet.payload().len() == 0 || packet.payload()[0] > 3 {
                    r == Err::<(), GameError>(GameError::MalformedPacket) && final(self)@
                        == old(self)@
                } else {
                    r == Ok::<(), GameError>(()) && final(self)@ == (GameView {
                        opponent: Some(
                            (
                                (old(self)@.opponent->0).0,
                                if direction_of_code(packet.payload()[0]) == opposite(
                                    (old(self)@.opponent->0).1,
                                ) {
                                    (old(self)@.opponent->0).1
                                } else {
                                    direction_of_code(packet.payload()[0])
                                },
                            ),
                        ),
                        ..old(self)@
                    })
                }
            },
            packet.op() == Opcode::NewTarget ==> {
                if packet.payload().len() < 2 || packet.payload()[0] >= BOARD_SIZE as u8
                    || packet.payload()[1] >= BOARD_SIZE as u8 {
                    r == Err::<(), GameError>(GameError::MalformedPacket) && final(self)@
                        == old(self)@
                } else {
                    r == Ok::<(), GameError>(()) && final(self)@ == (GameView {
                        targets: old(self)@.targets.push(
                            (packet.payload()[0] as usize, packet.payload()[1] as usize),
                        ),
                        ..old(self)@
                    })
                }
            },
    {
        match packet.opcode() {
            Opcode::Sync => Err(GameError::ProtocolViolation),
            Opcode::NewDirection => {
                let data = packet.data();
                if data.len() == 0 || data[0] > 3 {
                    return Err(GameError::MalformedPacket);
                }
                let direction = Direction::from(data[0]);
                self.control(false, direction);
                Ok(())
            },
            Opcode::NewTarget => {
                let data = packet.data();
                if data.len() < 2 || data[0] >= BOARD_SIZE as u8 || data[1] >= BOARD_SIZE as u8 {
                    return Err(GameError::MalformedPacket);
                }
                let target = (data[0] as usize, data[1] as usize);
                self.target.push_back(target);
                Ok(())
            },
        }
    }
}

} // verus!

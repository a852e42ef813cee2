//! Moving bytes from one file descriptor to another through a pipe.
use vstd::prelude::*;

verus! {

/// The capacity that is asked for a pipe, in bytes.
pub const PIPE_SIZE: i32 = 256 * 1024;

/// A pipe.
pub struct Pipe {
    /// The end that is read from.
    pub fd_r: i32,
    /// The end that is written to.
    pub fd_w: i32,
    /// How many bytes the pipe can hold.
    pub size: usize,
}

impl Pipe {
    /// A pipe, from what came back when it was made (`created`, with its two ends) and when its
    /// capacity was read. `errno` is the error of the call that failed, if one did.
    pub fn new(created: i32, fd_r: i32, fd_w: i32, capacity: i32, errno: i32) -> (r: Result<
        Pipe,
        i32,
    >)
        ensures
            match r {
                Ok(pipe) => {
                    &&& created >= 0
                    &&& capacity >= 0
                    &&& pipe == (Pipe { fd_r, fd_w, size: capacity as usize })
                    &&& pipe.size == capacity
                },
                Err(e) => (created < 0 || capacity < 0) && e == errno,
            },
    {
        if created < 0 {
            return Err(errno);
        }
        if capacity < 0 {
            return Err(errno);
        }
        Ok(Pipe { fd_r, fd_w, size: capacity as usize })
    }

    /// Starts to move bytes through the pipe, which holds `full` bytes.
    pub fn shovel(&self, full: usize) -> (r: Shovel)
        ensures
            r@ == ShovelView::start(self.size as int, full as int),
    {
        Shovel { size: self.size, full, shoveled: false, stage: Stage::Fill }
    }
}

/// Where a [`Shovel`] stands in its round.
#[derive(Clone, Copy, Debug, PartialEq, Eq, Structural)]
pub enum Stage {
    /// Bytes are to be moved into the pipe, if there is room.
    Fill,
    /// Bytes are to be moved out of the pipe, if there are any.
    Drain,
    /// The round is over.
    Check,
    /// Nothing moves any more.
    Done,
}

/// Moves bytes into and out of a pipe in turn, until nothing moves.
pub struct Shovel {
    pub size: usize,
    /// How many bytes the pipe holds.
    pub full: usize,
    /// Whether anything moved in this round.
    pub shoveled: bool,
    pub stage: Stage,
}

/// What is to be moved next: at most so many bytes into, or out of, the pipe.
#[derive(Clone, Copy, Debug, PartialEq, Eq, Structural)]
pub enum Splice {
    In(usize),
    Out(usize),
}

/// Moving bytes failed.
#[derive(Clone, Copy, Debug, PartialEq, Eq, Structural)]
pub struct SpliceError;

impl SpliceError {
    pub fn message(self) -> (r: &'static str)
        ensures
            r@ == "Failed to splice"@,
    {
        "Failed to splice"
    }
}

/// A [`Shovel`] as plain values.
#[verifier::ext_equal]
pub struct ShovelView {
    pub size: int,
    pub full: int,
    pub shoveled: bool,
    pub stage: Stage,
}

impl View for Shovel {
    type V = ShovelView;

    open spec fn view(&self) -> ShovelView {
        ShovelView {
            size: self.size as int,
            full: self.full as int,
            shoveled: self.shoveled,
            stage: self.stage,
        }
    }
}

pub open spec fn rank(stage: Stage) -> int {
    match stage {
        Stage::Fill => 3,
        Stage::Drain => 2,
        Stage::Check => 1,
        Stage::Done => 0,
    }
}

impl ShovelView {
    pub open spec fn start(size: int, full: int) -> ShovelView {
        ShovelView { size, full, shoveled: false, stage: Stage::Fill }
    }

    /// Goes on to the next stage in which there is something to try, or to the end.
    pub open spec fn settle(self) -> ShovelView
        decreases (if self.shoveled { 1int } else { 0 }), rank(self.stage),
    {
        match self.stage {
            Stage::Fill => if self.full < self.size {
                self
            } else {
                ShovelView { stage: Stage::Drain, ..self }.settle()
            },
            Stage::Drain => if self.full > 0 {
                self
            } else {
                ShovelView { stage: Stage::Check, ..self }.settle()
            },
            Stage::Check => if self.shoveled {
                ShovelView { shoveled: false, stage: Stage::Fill, ..self }.settle()
            } else {
                ShovelView { stage: Stage::Done, ..self }
            },
            Stage::Done => self,
        }
    }

    /// What is tried in this stage.
    pub open spec fn attempt(self) -> Option<Splice> {
        match self.stage {
            Stage::Fill => Some(Splice::In((self.size - self.full) as usize)),
            Stage::Drain => Some(Splice::Out(self.full as usize)),
            _ => None,
        }
    }

    /// How many bytes are tried in this stage.
    pub open spec fn offered(self) -> int {
        match self.stage {
            Stage::Fill => self.size - self.full,
            Stage::Drain => self.full,
            _ => 0,
        }
    }

    /// `n` bytes were moved.
    pub open spec fn moved(self, n: int) -> ShovelView {
        match self.stage {
            Stage::Fill => ShovelView {
                full: self.full + n,
                shoveled: self.shoveled || n > 0,
                stage: Stage::Drain,
                ..self
            },
            Stage::Drain => ShovelView {
                full: self.full - n,
                shoveled: self.shoveled || n > 0,
                stage: Stage::Check,
                ..self
            },
            _ => self,
        }
    }

    /// Where a shovel stands after moving the given numbers of bytes, one after the other.
    pub open spec fn run(self, moves: Seq<int>) -> ShovelView
        decreases moves.len(),
    {
        if moves.len() == 0 {
            self.settle()
        } else {
            self.settle().moved(moves[0]).run(moves.drop_first())
        }
    }

    /// Whether every move is tried, and moves no more than is tried.
    pub open spec fn possible(self, moves: Seq<int>) -> bool
        decreases moves.len(),
    {
        moves.len() > 0 ==> {
            let now = self.settle();
            &&& now.attempt() is Some
            &&& 0 <= moves[0] <= now.offered()
            &&& now.moved(moves[0]).possible(moves.drop_first())
        }
    }

    /// How many bytes are moved into the pipe.
    pub open spec fn taken_in(self, moves: Seq<int>) -> int
        decreases moves.len(),
    {
        if moves.len() == 0 {
            0
        } else {
            let now = self.settle();
            (if now.stage == Stage::Fill { moves[0] } else { 0 }) + now.moved(moves[0]).taken_in(
                moves.drop_first(),
            )
        }
    }

    /// How many bytes are moved out of the pipe.
    pub open spec fn passed_on(self, moves: Seq<int>) -> int
        decreases moves.len(),
    {
        if moves.len() == 0 {
            0
        } else {
            let now = self.settle();
            (if now.stage == Stage::Drain { moves[0] } else { 0 }) + now.moved(moves[0]).passed_on(
                moves.drop_first(),
            )
        }
    }

    /// Whether a new round starts on the way to the next stage in which there is something to try.
    pub open spec fn starts_round(self) -> bool
        decreases (if self.shoveled { 1int } else { 0 }), rank(self.stage),
    {
        match self.stage {
            Stage::Fill => self.full >= self.size && ShovelView {
                stage: Stage::Drain,
                ..self
            }.starts_round(),
            Stage::Drain => self.full <= 0 && ShovelView {
                stage: Stage::Check,
                ..self
            }.starts_round(),
            Stage::Check => self.shoveled,
            Stage::Done => false,
        }
    }

    /// How many rounds are started, besides the one that the shovel is in.
    pub open spec fn further_rounds(self, moves: Seq<int>) -> int
        decreases moves.len(),
    {
        (if self.starts_round() { 1int } else { 0 }) + (if moves.len() == 0 {
            0
        } else {
            self.settle().moved(moves[0]).further_rounds(moves.drop_first())
        })
    }

    /// The last moves: how many bytes were last moved into the pipe, and in which stage the very
    /// last move was made, of how many bytes. `fill` and `last` are those from before.
    pub open spec fn last_moves(
        self,
        moves: Seq<int>,
        fill: Option<int>,
        last: Option<(Stage, int)>,
    ) -> (Option<int>, Option<(Stage, int)>)
        decreases moves.len(),
    {
        if moves.len() == 0 {
            (fill, last)
        } else {
            let now = self.settle();
            now.moved(moves[0]).last_moves(
                moves.drop_first(),
                if now.stage == Stage::Fill { Some(moves[0]) } else { fill },
                Some((now.stage, moves[0])),
            )
        }
    }

    /// A whole round, in which `into` bytes are moved into the pipe if that is tried, and `out`
    /// bytes out of it if that is tried.
    pub open spec fn round(self, into: int, out: int) -> ShovelView {
        let filling = self.settle();
        let draining = if filling.stage == Stage::Fill {
            filling.moved(into).settle()
        } else {
            filling
        };
        if draining.stage == Stage::Drain {
            draining.moved(out).settle()
        } else {
            draining
        }
    }
}

impl Shovel {
    /// What is to be moved next; nothing when nothing moves any more.
    pub fn next(&mut self) -> (r: Option<Splice>)
        ensures
            final(self)@ == old(self)@.settle(),
            r == final(self)@.attempt(),
            r is None <==> final(self)@.stage == Stage::Done,
    {
        loop
            invariant
                self@.settle() == old(self)@.settle(),
            decreases (if self.shoveled { 1int } else { 0 }), rank(self.stage),
        {
            match self.stage {
                Stage::Fill => {
                    if self.full < self.size {
                        return Some(Splice::In(self.size - self.full));
                    }
                    self.stage = Stage::Drain;
                },
                Stage::Drain => {
                    if self.full > 0 {
                        return Some(Splice::Out(self.full));
                    }
                    self.stage = Stage::Check;
                },
                Stage::Check => {
                    if self.shoveled {
                        self.shoveled = false;
                        self.stage = Stage::Fill;
                    } else {
                        self.stage = Stage::Done;
                    }
                },
                Stage::Done => {
                    return None;
                },
            }
        }
    }

    /// Takes what came back when bytes were to be moved: how many were, or a negative number for a
    /// failure.
    pub fn spliced(&mut self, res: isize) -> (r: Result<(), SpliceError>)
        requires
            old(self)@.stage == Stage::Fill ==> old(self)@.full + res <= usize::MAX,
            old(self)@.stage == Stage::Drain ==> res <= old(self)@.full,
        ensures
            r is Err <==> res < 0,
            final(self)@ == if res < 0 {
                old(self)@
            } else {
                old(self)@.moved(res as int)
            },
    {
        if res < 0 {
            return Err(SpliceError);
        }
        match self.stage {
            Stage::Fill => {
                if res > 0 {
                    self.full = self.full + res as usize;
                    self.shoveled = true;
                }
                self.stage = Stage::Drain;
            },
            Stage::Drain => {
                if res > 0 {
                    self.full = self.full - res as usize;
                    self.shoveled = true;
                }
                self.stage = Stage::Check;
            },
            _ => {},
        }
        Ok(())
    }
}

/// Going on to the next stage moves nothing.
proof fn lemma_settle(shovel: ShovelView)
    ensures
        shovel.settle().size == shovel.size,
        shovel.settle().full == shovel.full,
        shovel.settle().settle() == shovel.settle(),
        shovel.settle().stage != Stage::Check,
        shovel.settle().stage == Stage::Fill ==> shovel.full < shovel.size,
        shovel.settle().stage == Stage::Drain ==> shovel.full > 0,
    decreases (if shovel.shoveled { 1int } else { 0 }), rank(shovel.stage),
{
    match shovel.stage {
        Stage::Fill => {
            if shovel.full >= shovel.size {
                lemma_settle(ShovelView { stage: Stage::Drain, ..shovel });
            }
        },
        Stage::Drain => {
            if shovel.full <= 0 {
                lemma_settle(ShovelView { stage: Stage::Check, ..shovel });
            }
        },
        Stage::Check => {
            if shovel.shoveled {
                lemma_settle(ShovelView { shoveled: false, stage: Stage::Fill, ..shovel });
            }
        },
        Stage::Done => {},
    }
}

/// No byte is lost or made up, and the pipe never holds more than its size, or than it held at
/// first.
pub proof fn law_bytes_are_conserved(shovel: ShovelView, moves: Seq<int>)
    requires
        0 <= shovel.full,
        shovel.possible(moves),
    ensures
        shovel.run(moves).full == shovel.full + shovel.taken_in(moves) - shovel.passed_on(moves),
        0 <= shovel.run(moves).full,
        shovel.run(moves).full <= shovel.size || shovel.run(moves).full <= shovel.full,
        shovel.run(moves).size == shovel.size,
    decreases moves.len(),
{
    lemma_settle(shovel);
    if moves.len() > 0 {
        let next = shovel.settle().moved(moves[0]);
        law_bytes_are_conserved(next, moves.drop_first());
    }
}

/// A new round is started only when something moved, and starts with nothing moved.
proof fn lemma_starts_round(shovel: ShovelView)
    ensures
        shovel.starts_round() ==> shovel.shoveled && !shovel.settle().shoveled,
        !shovel.starts_round() ==> {
            &&& shovel.settle().shoveled == shovel.shoveled
            &&& rank(shovel.settle().stage) <= rank(shovel.stage)
        },
    decreases (if shovel.shoveled { 1int } else { 0 }), rank(shovel.stage),
{
    match shovel.stage {
        Stage::Fill => {
            if shovel.full >= shovel.size {
                lemma_starts_round(ShovelView { stage: Stage::Drain, ..shovel });
            }
        },
        Stage::Drain => {
            if shovel.full <= 0 {
                lemma_starts_round(ShovelView { stage: Stage::Check, ..shovel });
            }
        },
        Stage::Check => {
            if shovel.shoveled {
                let next = ShovelView { shoveled: false, stage: Stage::Fill, ..shovel };
                lemma_starts_round(next);
            }
        },
        Stage::Done => {},
    }
}

proof fn lemma_rounds(shovel: ShovelView, moves: Seq<int>)
    requires
        shovel.possible(moves),
    ensures
        0 <= shovel.taken_in(moves),
        0 <= shovel.passed_on(moves),
        0 <= shovel.further_rounds(moves),
        shovel.further_rounds(moves) <= shovel.taken_in(moves) + shovel.passed_on(moves) + (
        if shovel.shoveled { 1int } else { 0 }),
        moves.len() <= 2 * shovel.further_rounds(moves) + attempts_left(shovel.stage),
    decreases moves.len(),
{
    lemma_settle(shovel);
    lemma_starts_round(shovel);
    if moves.len() > 0 {
        lemma_rounds(shovel.settle().moved(moves[0]), moves.drop_first());
    }
}

/// How many moves there can be before the round is over.
spec fn attempts_left(stage: Stage) -> int {
    match stage {
        Stage::Fill => 2,
        Stage::Drain => 1,
        _ => 0,
    }
}

/// Shoveling ends: every round but the last moves at least one byte, and a round takes at most two
/// moves, so as many bytes as are moved bound the rounds and the moves.
pub proof fn law_shoveling_ends(size: int, full: int, moves: Seq<int>)
    requires
        ShovelView::start(size, full).possible(moves),
    ensures
        ({
            let shovel = ShovelView::start(size, full);
            let bytes = shovel.taken_in(moves) + shovel.passed_on(moves);
            &&& 1 + shovel.further_rounds(moves) <= bytes + 1
            &&& moves.len() <= 2 * (bytes + 1)
        }),
{
    lemma_rounds(ShovelView::start(size, full), moves);
}

/// Whether what was moved last explains where a shovel stands: in a round in which nothing moved,
/// the pipe has room only if nothing came in, and holds bytes only if nothing went out.
spec fn explained(shovel: ShovelView, fill: Option<int>, last: Option<(Stage, int)>) -> bool {
    let room_explained = shovel.full < shovel.size ==> fill == Some(0int);
    let bytes_explained = shovel.full > 0 ==> last == Some((Stage::Drain, 0int));
    match shovel.stage {
        Stage::Fill => true,
        Stage::Drain => !shovel.shoveled ==> room_explained,
        Stage::Check => !shovel.shoveled ==> room_explained && bytes_explained,
        Stage::Done => room_explained && bytes_explained,
    }
}

proof fn lemma_settle_explained(
    shovel: ShovelView,
    fill: Option<int>,
    last: Option<(Stage, int)>,
)
    requires
        explained(shovel, fill, last),
    ensures
        explained(shovel.settle(), fill, last),
    decreases (if shovel.shoveled { 1int } else { 0 }), rank(shovel.stage),
{
    match shovel.stage {
        Stage::Fill => {
            if shovel.full >= shovel.size {
                lemma_settle_explained(ShovelView { stage: Stage::Drain, ..shovel }, fill, last);
            }
        },
        Stage::Drain => {
            if shovel.full <= 0 {
                lemma_settle_explained(ShovelView { stage: Stage::Check, ..shovel }, fill, last);
            }
        },
        Stage::Check => {
            if shovel.shoveled {
                let next = ShovelView { shoveled: false, stage: Stage::Fill, ..shovel };
                lemma_settle_explained(next, fill, last);
            }
        },
        Stage::Done => {},
    }
}

proof fn lemma_run_explained(
    shovel: ShovelView,
    moves: Seq<int>,
    fill: Option<int>,
    last: Option<(Stage, int)>,
)
    requires
        shovel.possible(moves),
        explained(shovel, fill, last),
    ensures
        ({
            let (f, l) = shovel.last_moves(moves, fill, last);
            explained(shovel.run(moves), f, l)
        }),
    decreases moves.len(),
{
    lemma_settle_explained(shovel, fill, last);
    if moves.len() > 0 {
        let now = shovel.settle();
        let next = now.moved(moves[0]);
        let next_fill = if now.stage == Stage::Fill { Some(moves[0]) } else { fill };
        let next_last = Some((now.stage, moves[0]));
        assert(explained(next, next_fill, next_last));
        lemma_run_explained(next, moves.drop_first(), next_fill, next_last);
    }
}

/// Shoveling stops only when no progress is possible: if there is room in the pipe, the last attempt
/// to move bytes into it moved none; if there are bytes in it, the very last attempt was to move
/// them out, and moved none.
pub proof fn law_stops_only_when_stuck(size: int, full: int, moves: Seq<int>)
    requires
        ShovelView::start(size, full).possible(moves),
        ShovelView::start(size, full).run(moves).stage == Stage::Done,
    ensures
        ({
            let shovel = ShovelView::start(size, full);
            let end = shovel.run(moves);
            let (fill, last) = shovel.last_moves(moves, None, None);
            &&& end.full < end.size ==> fill == Some(0int)
            &&& end.full > 0 ==> last == Some((Stage::Drain, 0int))
        }),
{
    lemma_run_explained(ShovelView::start(size, full), moves, None, None);
}

/// A shovel stops exactly when a whole round moved nothing.
pub proof fn law_stops_when_nothing_moves(size: int, full: int, into: int, out: int)
    requires
        0 < size,
        0 <= full,
        0 <= into,
        full >= size ==> into == 0,
        0 <= out <= full + into,
    ensures
        ShovelView::start(size, full).round(into, out).stage == Stage::Done <==> into == 0 && out
            == 0,
{
    reveal_with_fuel(ShovelView::settle, 6);
}

/// What is tried is all that can be moved: into the pipe as many bytes as there is room for, out of it
/// as many as it holds, and at least one.
pub proof fn law_all_that_can_move_is_tried(shovel: ShovelView)
    requires
        0 <= shovel.full <= usize::MAX,
        0 <= shovel.size <= usize::MAX,
    ensures
        match shovel.settle().attempt() {
            Some(Splice::In(n)) => {
                &&& n > 0
                &&& n == shovel.size - shovel.full
                &&& shovel.settle().stage == Stage::Fill
            },
            Some(Splice::Out(n)) => {
                &&& n > 0
                &&& n == shovel.full
                &&& shovel.settle().stage == Stage::Drain
            },
            None => shovel.settle().stage == Stage::Done,
        },
        match shovel.settle().attempt() {
            Some(Splice::In(n)) => shovel.settle().offered() == n,
            Some(Splice::Out(n)) => shovel.settle().offered() == n,
            None => shovel.settle().offered() == 0,
        },
{
    lemma_settle(shovel);
}

/// At first bytes are moved into the pipe, if there is room; otherwise out of it, if there are any.
pub proof fn law_filling_comes_first(size: int, full: int)
    requires
        0 <= full <= usize::MAX,
        0 <= size <= usize::MAX,
    ensures
        ({
            let first = ShovelView::start(size, full).settle();
            &&& first.size == size
            &&& first.full == full
            &&& !first.shoveled
            &&& match first.attempt() {
                Some(Splice::In(n)) => full < size && n == size - full,
                Some(Splice::Out(n)) => full >= size && full > 0 && n == full,
                None => full >= size && full == 0,
            }
        }),
{
    reveal_with_fuel(ShovelView::settle, 5);
}

/// After bytes were moved into the pipe, all that it then holds is to be moved out.
pub proof fn law_draining_follows_filling(shovel: ShovelView, n: int)
    requires
        shovel.settle().stage == Stage::Fill,
        0 <= shovel.full,
        0 <= n,
        shovel.full + n <= usize::MAX,
    ensures
        ({
            let next = shovel.settle().moved(n).settle();
            &&& next.full == shovel.full + n
            &&& next.size == shovel.size
            &&& shovel.full + n > 0 ==> next.attempt() == Some(
                Splice::Out((shovel.full + n) as usize),
            )
            &&& shovel.full + n > 0 ==> next.shoveled == (shovel.settle().shoveled || n > 0)
        }),
{
    lemma_settle(shovel);
    lemma_settle(shovel.settle().moved(n));
}

/// After bytes were moved out of the pipe there is another round, if anything moved in this one, and
/// otherwise the end.
pub proof fn law_rounds_go_on_while_bytes_move(shovel: ShovelView, n: int)
    requires
        shovel.settle().stage == Stage::Drain,
        0 <= n <= shovel.full <= usize::MAX,
        0 <= shovel.size <= usize::MAX,
    ensures
        ({
            let next = shovel.settle().moved(n).settle();
            let left = shovel.full - n;
            &&& next.full == left
            &&& next.size == shovel.size
            &&& !next.shoveled
            &&& if shovel.settle().shoveled || n > 0 {
                match next.attempt() {
                    Some(Splice::In(m)) => left < shovel.size && m == shovel.size - left,
                    Some(Splice::Out(m)) => left >= shovel.size && left > 0 && m == left,
                    None => left >= shovel.size && left == 0,
                }
            } else {
                next.attempt() is None
            }
        }),
{
    lemma_settle(shovel);
    lemma_settle(shovel.settle().moved(n));
    reveal_with_fuel(ShovelView::settle, 5);
}

/// What is said of a shovel as plain values is what the shovel holds.
pub proof fn law_nothing_of_a_shovel_is_hidden(shovel: Shovel)
    ensures
        shovel@.size == shovel.size,
        shovel@.full == shovel.full,
        shovel@.shoveled == shovel.shoveled,
        shovel@.stage == shovel.stage,
{
}

/// Moving bytes counts them, notes that something moved, and goes on to the next stage.
pub proof fn law_moved_bytes_are_counted(shovel: ShovelView, n: int)
    ensures
        ({
            let next = shovel.moved(n);
            &&& next.size == shovel.size
            &&& match shovel.stage {
                Stage::Fill => next.full == shovel.full + n && next.stage == Stage::Drain,
                Stage::Drain => next.full == shovel.full - n && next.stage == Stage::Check,
                _ => next == shovel,
            }
            &&& shovel.stage == Stage::Fill || shovel.stage == Stage::Drain ==> next.shoveled == (
            shovel.shoveled || n > 0)
        }),
{
}

/// What a round starts with: all that there is room for is to come in; where there is no room, all that is
/// in the pipe is to go out.
pub open spec fn round_start(size: usize, full: usize) -> Option<Splice> {
    if full < size {
        Some(Splice::In((size - full) as usize))
    } else if full > 0 {
        Some(Splice::Out(full))
    } else {
        None
    }
}

/// Every call of [`Shovel::next`] asks for all that can move: into the pipe, then out of it, and again in a
/// new round if anything moved in this one. It moves nothing by itself.
pub proof fn law_next()
    ensures
        forall|s: &mut Shovel, r: Option<Splice>| #[trigger]
            call_ensures(Shovel::next, (s,), r) ==> {
                let (before, after) = (*s, *final(s));
                &&& after.size == before.size
                &&& after.full == before.full
                &&& r == match before.stage {
                    Stage::Fill => round_start(before.size, before.full),
                    Stage::Drain => if before.full > 0 {
                        Some(Splice::Out(before.full))
                    } else if before.shoveled {
                        round_start(before.size, before.full)
                    } else {
                        None
                    },
                    Stage::Check => if before.shoveled {
                        round_start(before.size, before.full)
                    } else {
                        None
                    },
                    Stage::Done => None,
                }
                &&& match r {
                    Some(Splice::In(_)) => after.stage == Stage::Fill,
                    Some(Splice::Out(_)) => after.stage == Stage::Drain,
                    None => after.stage == Stage::Done,
                }
                &&& before.stage == Stage::Check ==> !after.shoveled
                &&& before.stage == Stage::Fill && r is Some ==> after.shoveled == before.shoveled
                &&& before.stage == Stage::Drain && before.full > 0 ==> after.shoveled
                    == before.shoveled
            },
{
    assert forall|s: &mut Shovel, r: Option<Splice>| #[trigger]
        call_ensures(Shovel::next, (s,), r) implies {
        let (before, after) = (*s, *final(s));
        &&& after.size == before.size
        &&& after.full == before.full
        &&& r == match before.stage {
            Stage::Fill => round_start(before.size, before.full),
            Stage::Drain => if before.full > 0 {
                Some(Splice::Out(before.full))
            } else if before.shoveled {
                round_start(before.size, before.full)
            } else {
                None
            },
            Stage::Check => if before.shoveled {
                round_start(before.size, before.full)
            } else {
                None
            },
            Stage::Done => None,
        }
        &&& match r {
            Some(Splice::In(_)) => after.stage == Stage::Fill,
            Some(Splice::Out(_)) => after.stage == Stage::Drain,
            None => after.stage == Stage::Done,
        }
        &&& before.stage == Stage::Check ==> !after.shoveled
        &&& before.stage == Stage::Fill && r is Some ==> after.shoveled == before.shoveled
        &&& before.stage == Stage::Drain && before.full > 0 ==> after.shoveled == before.shoveled
    } by {
        let (before, after) = (*s, *final(s));
        lemma_settle(before@);
        law_all_that_can_move_is_tried(before@);
        reveal_with_fuel(ShovelView::settle, 8);
    }
}

/// Every call of [`Shovel::spliced`] counts the bytes that moved, and fails exactly when moving them failed.
pub proof fn law_spliced()
    ensures
        forall|s: &mut Shovel, res: isize, r: Result<(), SpliceError>| #[trigger]
            call_ensures(Shovel::spliced, (s, res), r) && ((*s).stage == Stage::Fill ==> (*s).full
                + res <= usize::MAX) && ((*s).stage == Stage::Drain ==> res <= (*s).full) ==> {
                let (before, after) = (*s, *final(s));
                &&& r is Err <==> res < 0
                &&& after.size == before.size
                &&& if res < 0 {
                    &&& after.full == before.full
                    &&& after.stage == before.stage
                    &&& after.shoveled == before.shoveled
                } else {
                    match before.stage {
                        Stage::Fill => {
                            &&& after.full == before.full + res
                            &&& after.stage == Stage::Drain
                            &&& after.shoveled == (before.shoveled || res > 0)
                        },
                        Stage::Drain => {
                            &&& after.full == before.full - res
                            &&& after.stage == Stage::Check
                            &&& after.shoveled == (before.shoveled || res > 0)
                        },
                        _ => after.full == before.full && after.stage == before.stage,
                    }
                }
            },
        forall|pipe: &Pipe, full: usize, r: Shovel| #[trigger]
            call_ensures(Pipe::shovel, (pipe, full), r) ==> {
                &&& r.size == pipe.size
                &&& r.full == full
                &&& !r.shoveled
                &&& r.stage == Stage::Fill
            },
{
    assert forall|s: &mut Shovel, res: isize, r: Result<(), SpliceError>| #[trigger]
        call_ensures(Shovel::spliced, (s, res), r) && ((*s).stage == Stage::Fill ==> (*s).full + res
            <= usize::MAX) && ((*s).stage == Stage::Drain ==> res <= (*s).full) implies {
        let (before, after) = (*s, *final(s));
        &&& r is Err <==> res < 0
        &&& after.size == before.size
        &&& if res < 0 {
            &&& after.full == before.full
            &&& after.stage == before.stage
            &&& after.shoveled == before.shoveled
        } else {
            match before.stage {
                Stage::Fill => {
                    &&& after.full == before.full + res
                    &&& after.stage == Stage::Drain
                    &&& after.shoveled == (before.shoveled || res > 0)
                },
                Stage::Drain => {
                    &&& after.full == before.full - res
                    &&& after.stage == Stage::Check
                    &&& after.shoveled == (before.shoveled || res > 0)
                },
                _ => after.full == before.full && after.stage == before.stage,
            }
        }
    } by {
        law_nothing_of_a_shovel_is_hidden(*s);
        law_nothing_of_a_shovel_is_hidden(*final(s));
    }
    assert forall|pipe: &Pipe, full: usize, r: Shovel| #[trigger]
        call_ensures(Pipe::shovel, (pipe, full), r) implies {
        &&& r.size == pipe.size
        &&& r.full == full
        &&& !r.shoveled
        &&& r.stage == Stage::Fill
    } by {
        law_nothing_of_a_shovel_is_hidden(r);
    }
}

/// A pipe has the two ends and the capacity that it was made with, unless one of the calls failed.
pub proof fn law_pipes_are_made()
    ensures
        forall|created: i32, fd_r: i32, fd_w: i32, capacity: i32, errno: i32, r: Result<Pipe, i32>|
            #[trigger]
            call_ensures(Pipe::new, (created, fd_r, fd_w, capacity, errno), r) ==> match r {
                Ok(pipe) => {
                    &&& created >= 0 && capacity >= 0
                    &&& pipe.fd_r == fd_r
                    &&& pipe.fd_w == fd_w
                    &&& pipe.size == capacity
                },
                Err(e) => (created < 0 || capacity < 0) && e == errno,
            },
{
}

} // verus!

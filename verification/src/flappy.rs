//! Flappy Dragon: the dragon, the walls, and the rules of a round.
//!
//! The dragon's vertical speed and the frame clock are floating point and stay
//! with the caller: each frame the caller updates the speed and hands over how
//! many rows the dragon falls (the speed truncated to an integer).
use vstd::prelude::*;

use crate::arith::{trunc_div, trunc_rem};
use crate::keys::Key;
use crate::random::{rng_new, rng_range};

verus! {

pub const SCREEN_WIDTH: i32 = 80;

pub const SCREEN_HEIGHT: i32 = 50;

/// How many walls a new screen gets: a draw of `0..12` picks one entry.
pub const CHANCES: [i32; 12] = [1, 2, 2, 2, 2, 3, 3, 3, 3, 3, 3, 4];

#[derive(Debug, Clone, Copy, PartialEq, Eq, Structural)]
pub enum GameMode {
    Menu,
    Playing,
    End,
}

/// The dragon's cell on the screen.
#[derive(Debug, Clone, Copy, PartialEq, Eq, Structural)]
pub struct Player {
    pub x: i32,
    pub y: i32,
}

/// Where the dragon is after a frame in which it falls `fall` rows: one
/// column to the right, wrapping at the screen's width, and never above row 0.
pub open spec fn moved(p: Player, fall: int) -> Player {
    Player {
        x: trunc_rem(p.x + 1, SCREEN_WIDTH as int) as i32,
        y: if p.y + fall < 0 { 0 } else { (p.y + fall) as i32 },
    }
}

impl Player {
    pub fn new(x: i32, y: i32) -> (p: Self)
        ensures
            p == (Player { x, y }),
    {
        Player { x, y }
    }

    /// The cells and characters of the dragon's picture, in drawing order;
    /// `rising` is whether its speed is below -1 (moving up fast).
    pub fn render(&self, rising: bool) -> (cells: Vec<(i32, i32, char)>)
        requires
            i32::MIN + 2 <= self.x <= i32::MAX - 2,
            i32::MIN + 2 <= self.y <= i32::MAX - 1,
        ensures
            cells@ == dragon_cells(self.x as int, self.y as int, rising),
            cells@.len() == 8,
            cells@[2] == ((self.x + 1) as i32, (self.y - 1) as i32, '0'),
            cells@[3] == ((self.x + 2) as i32, (self.y - 1) as i32, '>'),
    {
        proof {
            lemma_only_the_wings_change(self.x as int, self.y as int);
        }
        let mut cells: Vec<(i32, i32, char)> = Vec::new();
        if rising {
            cells.push((self.x - 1, self.y - 1, '_'));
            cells.push((self.x - 2, self.y - 1, '_'));
        } else {
            cells.push((self.x - 1, self.y - 2, '\\'));
            cells.push((self.x, self.y - 1, '\\'));
        }
        cells.push((self.x + 1, self.y - 1, '0'));
        cells.push((self.x + 2, self.y - 1, '>'));
        cells.push((self.x - 1, self.y, '/'));
        cells.push((self.x, self.y, ')'));
        cells.push((self.x - 1, self.y + 1, '"'));
        cells.push((self.x - 2, self.y + 1, '"'));
        assert(cells@ =~= dragon_cells(self.x as int, self.y as int, rising));
        cells
    }

    /// Moves the dragon through one frame; `fall` is its vertical speed, already
    /// updated for this frame, truncated toward zero.
    pub fn gravity_and_move(&mut self, fall: i32)
        requires
            i32::MIN <= old(self).y + fall <= i32::MAX,
            old(self).x < i32::MAX,
        ensures
            *final(self) == moved(*old(self), fall as int),
    {
        self.y = self.y + fall;
        self.x = self.x + 1;
        self.x = self.x % SCREEN_WIDTH;
        if self.y < 0 {
            self.y = 0;
        }
    }
}

/// The dragon's picture around its cell `(x, y)`: the wings, raised when it
/// rises fast, then the eye, beak, body and tail.
pub open spec fn dragon_cells(x: int, y: int, rising: bool) -> Seq<(i32, i32, char)> {
    let wings = if rising {
        seq![((x - 1) as i32, (y - 1) as i32, '_'), ((x - 2) as i32, (y - 1) as i32, '_')]
    } else {
        seq![((x - 1) as i32, (y - 2) as i32, '\\'), (x as i32, (y - 1) as i32, '\\')]
    };
    wings + seq![
        ((x + 1) as i32, (y - 1) as i32, '0'),
        ((x + 2) as i32, (y - 1) as i32, '>'),
        ((x - 1) as i32, y as i32, '/'),
        (x as i32, y as i32, ')'),
        ((x - 1) as i32, (y + 1) as i32, '"'),
        ((x - 2) as i32, (y + 1) as i32, '"'),
    ]
}

/// The dragon's picture has eight cells, and rising or gliding changes only
/// the first two, the wings: the eye is always at `(x + 1, y - 1)`, the beak at
/// `(x + 2, y - 1)`, the body and tail below them.
pub proof fn lemma_only_the_wings_change(x: int, y: int)
    ensures
        dragon_cells(x, y, true).len() == 8,
        dragon_cells(x, y, false).len() == 8,
        forall|i: int| 2 <= i < 8 ==> #[trigger] dragon_cells(x, y, true)[i] == dragon_cells(x, y, false)[i],
        forall|r: bool| #[trigger] dragon_cells(x, y, r)[2] == ((x + 1) as i32, (y - 1) as i32, '0'),
        forall|r: bool| #[trigger] dragon_cells(x, y, r)[3] == ((x + 2) as i32, (y - 1) as i32, '>'),
        dragon_cells(x, y, true)[0] == ((x - 1) as i32, (y - 1) as i32, '_'),
        dragon_cells(x, y, true)[1] == ((x - 2) as i32, (y - 1) as i32, '_'),
        dragon_cells(x, y, false)[0] == ((x - 1) as i32, (y - 2) as i32, '\\'),
        dragon_cells(x, y, false)[1] == (x as i32, (y - 1) as i32, '\\'),
{
    assert forall|r: bool| #[trigger] dragon_cells(x, y, r)[2] == ((x + 1) as i32, (y - 1) as i32, '0')
        && dragon_cells(x, y, r)[3] == ((x + 2) as i32, (y - 1) as i32, '>') by {
        if r {
        } else {
        }
    }
}

/// How far apart two rows are.
pub open spec fn distance(a: int, b: int) -> int {
    if a < b {
        b - a
    } else {
        a - b
    }
}

/// A wall with a gap: `size` rows around row `gap_y` are open.
#[derive(Debug, Clone, Copy, PartialEq, Eq, Structural)]
pub struct Obstacle {
    pub x: i32,
    pub gap_y: i32,
    pub size: i32,
}

/// The gap size of a wall made at a given score: it narrows with the score,
/// down to 2.
pub open spec fn gap_size(score: int) -> int {
    if 20 - score > 2 {
        20 - score
    } else {
        2
    }
}

/// Whether `o` is a wall as `Obstacle::new(x, score)` makes it.
pub open spec fn made_at(o: Obstacle, x: int, score: int) -> bool {
    &&& o.x == x
    &&& 10 <= o.gap_y < 40
    &&& o.size == gap_size(score)
}

/// Whether the dragon at `p` crashes into `o`: same column, outside the gap.
pub open spec fn hits(o: Obstacle, p: Player) -> bool {
    o.x == p.x && {
        let d = o.gap_y - p.y;
        (if d < 0 { -d } else { d }) > trunc_div(o.size as int, 2)
    }
}

/// Rows within half the gap size of the gap's centre, above or below it, are
/// open: the dragon there does not hit the wall.
pub proof fn lemma_gap_is_open(o: Obstacle, p: Player)
    requires
        distance(o.gap_y as int, p.y as int) <= trunc_div(o.size as int, 2),
    ensures
        !hits(o, p),
{
}

/// In the wall's column, every row farther than half the gap size from the
/// gap's centre is a hit.
pub proof fn lemma_wall_outside_gap_hits(o: Obstacle, p: Player)
    requires
        o.x == p.x,
        distance(o.gap_y as int, p.y as int) > trunc_div(o.size as int, 2),
    ensures
        hits(o, p),
{
}

/// Hitting a wall is symmetric about the gap's centre row, and only the
/// dragon's column and row count.
pub proof fn lemma_hit_is_symmetric(o: Obstacle, p: Player, q: Player)
    requires
        p.x == q.x,
        p.y - o.gap_y == o.gap_y - q.y,
    ensures
        hits(o, p) == hits(o, q),
{
}

/// A dragon in the column of any wall of the screen, outside that wall's gap,
/// has crashed, wherever the wall stands in the list.
pub proof fn lemma_any_wall_can_crash(obs: Seq<Obstacle>, p: Player, i: int)
    requires
        0 <= i < obs.len(),
        obs[i].x == p.x,
        distance(obs[i].gap_y as int, p.y as int) > trunc_div(obs[i].size as int, 2),
    ensures
        crashed(obs, p),
{
    lemma_wall_outside_gap_hits(obs[i], p);
    assert(obs[i].x >= p.x && hits(obs[i], p));
}

impl Obstacle {
    /// A wall at column `x` whose gap is centred on a random row in `10..40`.
    pub fn new(x: i32, score: i32) -> (o: Self)
        requires
            20 - score <= i32::MAX,
        ensures
            made_at(o, x as int, score as int),
    {
        let mut random = rng_new();
        let gap_y = rng_range(&mut random, 10, 40);
        Obstacle::with_gap(x, gap_y, score)
    }

    /// The wall that `new(x, score)` makes when the random draw for its gap is
    /// `gap_y`.
    pub fn with_gap(x: i32, gap_y: i32, score: i32) -> (o: Self)
        requires
            20 - score <= i32::MAX,
        ensures
            o == (Obstacle { x, gap_y, size: gap_size(score as int) as i32 }),
    {
        let size = if 2 > 20 - score {
            2
        } else {
            20 - score
        };
        Obstacle { x, gap_y, size }
    }

    /// The rows the wall is drawn on, three cells wide from column `x - 1`:
    /// `0..top_end` above the gap and `bottom_start..SCREEN_HEIGHT` below it.
    pub fn render(&self) -> (r: (i32, i32))
        requires
            i32::MIN <= self.gap_y - trunc_div(self.size as int, 2) <= i32::MAX,
            i32::MIN <= self.gap_y + trunc_div(self.size as int, 2) <= i32::MAX,
        ensures
            r.0 == self.gap_y - trunc_div(self.size as int, 2),
            r.1 == self.gap_y + trunc_div(self.size as int, 2),
    {
        (self.gap_y - self.size / 2, self.gap_y + self.size / 2)
    }

    /// Whether the dragon crashes into this wall.
    pub fn hit_obstacle(&self, player: &Player) -> (r: bool)
        requires
            self.x == player.x ==> i32::MIN < self.gap_y - player.y <= i32::MAX,
        ensures
            r == hits(*self, *player),
            r ==> self.x == player.x,
            self.x == player.x ==> (r <==> distance(self.gap_y as int, player.y as int) > trunc_div(
                self.size as int,
                2,
            )),
    {
        if self.x != player.x {
            return false;
        }
        let d = self.gap_y - player.y;
        let distance = if d < 0 {
            -d
        } else {
            d
        };
        distance > self.size / 2
    }
}

/// A round of Flappy Dragon.
pub struct State {
    pub player: Player,
    pub mode: GameMode,
    pub score: i32,
    pub obstacles: Vec<Obstacle>,
}

/// Whether `obs` is a screen of walls as placed at `score` after the draw
/// `roll`: as many walls as `CHANCES[roll]`, evenly spaced across the screen.
pub open spec fn placed_for_roll(obs: Seq<Obstacle>, score: int, roll: int) -> bool {
    &&& obs.len() == CHANCES@[roll]
    &&& forall|i: int|
        0 <= i < obs.len() ==> made_at(
            #[trigger] obs[i],
            (SCREEN_WIDTH as int / (obs.len() + 1) as int) * (i + 1),
            score,
        )
}

/// Whether `obs` is a screen of walls as placed at `score` after some draw
/// in `0..12`.
pub open spec fn placed_at(obs: Seq<Obstacle>, score: int) -> bool {
    exists|roll: int| 0 <= roll < 12 && #[trigger] placed_for_roll(obs, score, roll)
}

/// Whether the dragon at `p` crashes into a wall of `obs` that it has not
/// passed yet, or falls below the screen.
pub open spec fn crashed(obs: Seq<Obstacle>, p: Player) -> bool {
    ||| exists|i: int| 0 <= i < obs.len() && obs[i].x >= p.x && #[trigger] hits(obs[i], p)
    ||| p.y > SCREEN_HEIGHT
}

impl State {
    /// The invariant of a round: the dragon is on the screen's columns and not
    /// above it, the score is not negative, and there are one to four walls,
    /// each on the screen with its gap in `10..40` and a size from 2 to 20.
    pub open spec fn wf(&self) -> bool {
        &&& 0 <= self.player.x < SCREEN_WIDTH
        &&& 0 <= self.player.y
        &&& 0 <= self.score
        &&& 1 <= self.obstacles.len() <= 4
        &&& forall|i: int|
            0 <= i < self.obstacles.len() ==> {
                let o = #[trigger] self.obstacles[i];
                &&& 0 <= o.x <= SCREEN_WIDTH
                &&& 10 <= o.gap_y < 40
                &&& 2 <= o.size <= 20
            }
    }

    /// A round waiting at the menu, with one wall in the middle of the screen.
    pub fn new() -> (s: Self)
        ensures
            s.wf(),
            s.player == (Player { x: 5, y: 25 }),
            s.mode == GameMode::Menu,
            s.score == 0,
            s.obstacles.len() == 1,
            made_at(s.obstacles[0], SCREEN_WIDTH / 2, 0),
    {
        let mut obstacles: Vec<Obstacle> = Vec::new();
        obstacles.push(Obstacle::new(SCREEN_WIDTH / 2, 0));
        State { player: Player::new(5, 25), mode: GameMode::Menu, score: 0, obstacles }
    }

    /// Whether `self` is a round just started: the dragon at its start, score
    /// 0, one wall in the middle of the screen, playing.
    pub open spec fn is_fresh_round(&self) -> bool {
        &&& self.wf()
        &&& self.player == (Player { x: 5, y: 25 })
        &&& self.mode == GameMode::Playing
        &&& self.score == 0
        &&& self.obstacles.len() == 1
        &&& made_at(self.obstacles[0], SCREEN_WIDTH / 2, 0)
    }

    /// Whether `self` and `other` are the same round.
    pub open spec fn same_round(&self, other: &State) -> bool {
        &&& self.player == other.player
        &&& self.mode == other.mode
        &&& self.score == other.score
        &&& self.obstacles@ == other.obstacles@
    }

    /// Starts a new round: the dragon back at its start, score 0, one wall in
    /// the middle of the screen.
    pub fn restart(&mut self)
        ensures
            final(self).is_fresh_round(),
    {
        self.player = Player::new(5, 25);
        let n = self.obstacles.len();
        for _i in 0..n
            invariant
                self.obstacles.len() + _i == n,
                self.player == (Player { x: 5, y: 25 }),
        {
            self.obstacles.pop();
        }
        self.obstacles.push(Obstacle::new(SCREEN_WIDTH / 2, 0));
        self.score = 0;
        self.mode = GameMode::Playing;
    }

    /// Replaces the walls with a new screen of them: one to four walls, as a
    /// random entry of `CHANCES` says, evenly spaced, with gaps sized by the
    /// current score.
    pub fn place_obstacles(&mut self)
        requires
            20 - old(self).score <= i32::MAX,
        ensures
            placed_at(final(self).obstacles@, old(self).score as int),
            final(self).player == old(self).player,
            final(self).mode == old(self).mode,
            final(self).score == old(self).score,
    {
        let mut random_gen = rng_new();
        let random_num = rng_range(&mut random_gen, 0, 12);
        self.place_obstacles_for_roll(random_num);
    }

    /// What `place_obstacles` does when its draw from `0..12` is `roll`: the
    /// walls are cleared and `CHANCES[roll]` new ones placed at equal
    /// intervals.
    pub fn place_obstacles_for_roll(&mut self, roll: i32)
        requires
            20 - old(self).score <= i32::MAX,
            0 <= roll < 12,
        ensures
            placed_for_roll(final(self).obstacles@, old(self).score as int, roll as int),
            final(self).player == old(self).player,
            final(self).mode == old(self).mode,
            final(self).score == old(self).score,
    {
        let n = self.obstacles.len();
        for _i in 0..n
            invariant
                self.obstacles.len() + _i == n,
                self.player == old(self).player,
                self.mode == old(self).mode,
                self.score == old(self).score,
        {
            self.obstacles.pop();
        }
        let obstacles_num: i32 = CHANCES[roll as usize];
        assert(1 <= obstacles_num <= 4);
        let interval: i32 = SCREEN_WIDTH / (obstacles_num + 1);
        assert(1 <= interval <= 40) by {
            assert(obstacles_num == 1 || obstacles_num == 2 || obstacles_num == 3 || obstacles_num
                == 4);
        }
        let mut i: i32 = 1;
        while i <= obstacles_num
            invariant
                1 <= i <= obstacles_num + 1,
                1 <= obstacles_num <= 4,
                obstacles_num == CHANCES@[roll as int],
                interval == SCREEN_WIDTH as int / (obstacles_num + 1),
                1 <= interval <= 40,
                self.obstacles.len() == i - 1,
                20 - self.score <= i32::MAX,
                self.score == old(self).score,
                self.player == old(self).player,
                self.mode == old(self).mode,
                forall|j: int|
                    0 <= j < self.obstacles.len() ==> made_at(
                        #[trigger] self.obstacles[j],
                        interval * (j + 1),
                        self.score as int,
                    ),
            decreases obstacles_num + 1 - i,
        {
            assert(interval * i <= 40 * 4) by (nonlinear_arith)
                requires
                    1 <= interval <= 40,
                    1 <= i <= 4,
            ;
            self.obstacles.push(Obstacle::new(interval * i, self.score));
            i = i + 1;
        }
    }

    /// One frame of play. `fall` is `Some` when a frame's time has elapsed,
    /// holding the rows the dragon falls in it: the dragon then moves, and when
    /// it wraps around to column 0 the score goes up by one and a new screen of
    /// walls is placed. Then the round ends if the dragon hits a wall it has not
    /// passed yet or falls below the screen.
    pub fn play(&mut self, fall: Option<i32>)
        requires
            old(self).wf(),
            fall matches Some(f) ==> old(self).player.y + f <= i32::MAX,
            fall is Some && old(self).player.x == SCREEN_WIDTH - 1 ==> old(self).score < i32::MAX,
        ensures
            final(self).wf(),
            ({
                let p = match fall {
                    Some(f) => moved(old(self).player, f as int),
                    None => old(self).player,
                };
                let scored = fall is Some && p.x == 0;
                &&& final(self).player == p
                &&& scored ==> final(self).score == old(self).score + 1 && placed_at(
                    final(self).obstacles@,
                    old(self).score + 1,
                )
                &&& !scored ==> final(self).score == old(self).score && final(self).obstacles@
                    == old(self).obstacles@
                &&& final(self).mode == if crashed(final(self).obstacles@, p) {
                    GameMode::End
                } else {
                    old(self).mode
                }
            }),
            forall|i: int|
                0 <= i < final(self).obstacles.len() && #[trigger] final(self).obstacles[i].x
                    == final(self).player.x && distance(
                    final(self).obstacles[i].gap_y as int,
                    final(self).player.y as int,
                ) > trunc_div(final(self).obstacles[i].size as int, 2) ==> final(self).mode
                    == GameMode::End,
            final(self).player.y > SCREEN_HEIGHT ==> final(self).mode == GameMode::End,
    {
        if let Some(f) = fall {
            self.player.gravity_and_move(f);
            if self.player.x == 0 {
                self.score = self.score + 1;
                self.place_obstacles();
                assert(forall|i: int|
                    0 <= i < self.obstacles.len() ==> made_at(
                        #[trigger] self.obstacles[i],
                        (SCREEN_WIDTH as int / (self.obstacles.len() + 1) as int) * (i + 1),
                        self.score as int,
                    ));
                assert(self.wf()) by {
                    assert forall|i: int| 0 <= i < self.obstacles.len() implies 0
                        <= #[trigger] self.obstacles[i].x <= SCREEN_WIDTH by {
                        let n = self.obstacles.len() as int;
                        assert(made_at(
                            self.obstacles[i],
                            (SCREEN_WIDTH as int / (n + 1)) * (i + 1),
                            self.score as int,
                        ));
                        let w = SCREEN_WIDTH as int / (n + 1);
                        assert(w * (n + 1) <= 80 && 0 <= w) by (nonlinear_arith)
                            requires
                                w == 80int / (n + 1),
                                1 <= n,
                        ;
                        assert(0 <= w * (i + 1) <= w * (n + 1)) by (nonlinear_arith)
                            requires
                                0 <= w,
                                0 <= i < n,
                        ;
                    }
                }
            }
        }
        let ghost mode0 = self.mode;
        let ghost before = *self;
        let n = self.obstacles.len();
        for i in 0..n
            invariant
                n == self.obstacles.len(),
                self.wf(),
                self.player == before.player,
                self.score == before.score,
                self.obstacles@ == before.obstacles@,
                self.mode == if exists|j: int|
                    0 <= j < i && self.obstacles[j].x >= self.player.x && #[trigger] hits(
                        self.obstacles[j],
                        self.player,
                    ) {
                    GameMode::End
                } else {
                    mode0
                },
        {
            let c = self.obstacles[i].x >= self.player.x && self.obstacles[i].hit_obstacle(
                &self.player,
            );
            if c {
                self.mode = GameMode::End;
            }
            proof {
                if c {
                    assert(hits(self.obstacles[i as int], self.player));
                } else {
                    assert(!(self.obstacles[i as int].x >= self.player.x && hits(
                        self.obstacles[i as int],
                        self.player,
                    )));
                }
            }
        }
        if self.player.y > SCREEN_HEIGHT {
            self.mode = GameMode::End;
        }
        proof {
            assert forall|i: int|
                0 <= i < self.obstacles.len() && #[trigger] self.obstacles[i].x == self.player.x
                    && distance(self.obstacles[i].gap_y as int, self.player.y as int) > trunc_div(
                    self.obstacles[i].size as int,
                    2,
                ) implies self.mode == GameMode::End by {
                lemma_any_wall_can_crash(self.obstacles@, self.player, i);
            }
        }
    }

    /// The menu's keys: `P` starts a round, `Q` asks to quit (the result is
    /// `true`), any other key or none changes nothing.
    fn handle_menu_key(&mut self, key: Option<Key>) -> (quit: bool)
        ensures
            quit == (key == Some(Key::Q)),
            key == Some(Key::P) ==> final(self).is_fresh_round(),
            key != Some(Key::P) ==> final(self).same_round(old(self)),
    {
        match key {
            Some(Key::P) => {
                self.restart();
                false
            },
            Some(Key::Q) => true,
            _ => false,
        }
    }

    /// The title menu: `P` starts a round, `Q` asks to quit (the result is
    /// `true`); any other key or none changes nothing.
    pub fn main_menu(&mut self, key: Option<Key>) -> (quit: bool)
        ensures
            quit == (key == Some(Key::Q)),
            key == Some(Key::P) ==> final(self).is_fresh_round(),
            key != Some(Key::P) ==> final(self).same_round(old(self)),
    {
        self.handle_menu_key(key)
    }

    /// The screen after a crash: `P` starts a new round, `Q` asks to quit (the
    /// result is `true`); any other key or none changes nothing.
    pub fn dead(&mut self, key: Option<Key>) -> (quit: bool)
        ensures
            quit == (key == Some(Key::Q)),
            key == Some(Key::P) ==> final(self).is_fresh_round(),
            key != Some(Key::P) ==> final(self).same_round(old(self)),
    {
        self.handle_menu_key(key)
    }
}

} // verus!

//! Find the Dot: move a cursor with the direction keys until it touches a
//! blinking dot, before the round's time runs out.
//!
//! Times are milliseconds of a monotonic clock, handed in by the caller. A new
//! dot is drawn at random until one lies far enough from the cursor; as that
//! draw need not end, the caller repeats `try_spawn_dot` while `dot_pending`.
use vstd::prelude::*;
use crate::input::{KeyCode, KeyState};
use crate::cross_memory::{Rng, xorshift};

verus! {

/// Frames between two blinks of the dot.
pub const BLINK_INTERVAL_FRAMES: u32 = 30;
/// Time limit of a round at the start (three minutes).
pub const BASE_TIME_LIMIT_MS: u32 = 180_000;
/// How much shorter a round gets per level.
pub const TIME_REDUCE_MS: u32 = 500;
/// The shortest time limit.
pub const MIN_TIME_LIMIT_MS: u32 = 5_000;
/// Points per level.
pub const SCORE_PER_DIFFICULTY: u32 = 10;
/// Height of the progress bar.
pub const PROGRESS_BAR_HEIGHT: i16 = 2;
/// Gap above the progress bar.
pub const PROGRESS_BAR_GAP: i16 = 1;
/// Margin of the play area.
pub const PLAY_PADDING: i16 = 1;
/// The cursor finds the dot within this squared distance.
pub const COLLISION_DIST_SQ: i32 = 5;
/// A held key repeats after this delay.
pub const REPEAT_DELAY_MS: u64 = 100;
/// Interval of a held key's repeats.
pub const REPEAT_INTERVAL_MS: u64 = 25;
/// Held keys are dropped when no key event came for this long.
pub const KEY_ALIVE_TIMEOUT_MS: u64 = 300;
/// The find sound lasts this long; the score is said after it.
pub const SOUND_EFFECT_DURATION_MS: u64 = 700;

/// The stages of the game.
#[derive(Clone, Copy, Debug, PartialEq, Eq, Structural)]
pub enum GameState {
    Ready,
    Playing,
    End,
}

/// A pin position.
#[derive(Clone, Copy, Debug, PartialEq, Eq, Structural)]
pub struct Point {
    pub x: i16,
    pub y: i16,
}

/// The time limit of a round at a score: three minutes, half a second less per
/// ten points, never under five seconds.
pub open spec fn time_limit_for(score: u32) -> u32 {
    let reduce = (score / SCORE_PER_DIFFICULTY) * TIME_REDUCE_MS;
    if BASE_TIME_LIMIT_MS >= reduce && BASE_TIME_LIMIT_MS - reduce > MIN_TIME_LIMIT_MS {
        (BASE_TIME_LIMIT_MS - reduce) as u32
    } else {
        MIN_TIME_LIMIT_MS
    }
}

/// The time limit of a round at a score (the level factor must fit in 32 bits).
pub fn calc_time_limit(score: u32) -> (r: u32)
    requires
        (score / SCORE_PER_DIFFICULTY) * TIME_REDUCE_MS <= u32::MAX,
    ensures
        r == time_limit_for(score),
{
    let reduce = (score / SCORE_PER_DIFFICULTY) * TIME_REDUCE_MS;
    let left = BASE_TIME_LIMIT_MS.saturating_sub(reduce);
    if left > MIN_TIME_LIMIT_MS {
        left
    } else {
        MIN_TIME_LIMIT_MS
    }
}

/// The time limit never grows with the score and never drops under five seconds.
pub proof fn law_time_limit_monotone(a: u32, b: u32)
    requires
        a <= b,
    ensures
        time_limit_for(b) <= time_limit_for(a),
        MIN_TIME_LIMIT_MS <= time_limit_for(a) <= BASE_TIME_LIMIT_MS,
{
    vstd::arithmetic::div_mod::lemma_div_is_ordered(a as int, b as int, 10);
    assert((a / 10) * 500 <= (b / 10) * 500) by (nonlinear_arith)
        requires
            a / 10 <= b / 10,
    ;
}

/// Whether two points are within the finding distance.
pub open spec fn close(a: Point, b: Point) -> bool {
    let dx = a.x - b.x;
    let dy = a.y - b.y;
    dx * dx + dy * dy <= COLLISION_DIST_SQ
}

/// What the game asks its host to do.
#[derive(Clone, Copy, Debug, PartialEq, Eq, Structural)]
pub enum FindEffect {
    /// Play the sound of a found dot.
    PlayFind,
    /// Say the score ("N점").
    SayScore(u32),
    /// Say that the game is over, with the score.
    SayGameOver(u32),
    /// Say that the game starts.
    SayStart,
}

/// The game.
pub struct FindDot {
    pub state: GameState,
    pub need_draw: bool,
    pub cursor_position: Point,
    pub dot_position: Point,
    pub frame_count: u32,
    pub dot_visible: bool,
    pub score: u32,
    /// A new dot must be drawn before the game goes on.
    pub dot_pending: bool,
    pub rng: Rng,
    pub round_start: u64,
    pub time_limit_ms: u32,
    pub up_pressed: bool,
    pub down_pressed: bool,
    pub left_pressed: bool,
    pub right_pressed: bool,
    pub held_since: u64,
    pub last_repeat: u64,
    pub last_key_event: u64,
    pub heartbeat_armed: bool,
    /// The score to say, and when.
    pub pending_tts: Option<(u32, u64)>,
}

/// The offset of a random number into a span of positions.
pub open spec fn offset(r: u64, span: int) -> int {
    ((((r >> 16u64) as u32) as int) % span)
}

/// The random point drawn from generator state `s` in a `width` by `height`
/// area (the span of each coordinate is at least one).
pub open spec fn random_point_at(s: u64, width: i16, height: i16) -> Point {
    let xs = if width - 2 * PLAY_PADDING > 1 { width - 2 * PLAY_PADDING } else { 1 };
    let ys = if height - PLAY_PADDING > 1 { height - PLAY_PADDING } else { 1 };
    Point {
        x: (PLAY_PADDING + offset(xorshift(s), xs)) as i16,
        y: (PLAY_PADDING + offset(xorshift(xorshift(s)), ys)) as i16,
    }
}

impl FindDot {
    /// A game waiting to start, its generator seeded from `seed`.
    pub fn new(seed: u64) -> (r: Self)
        ensures
            r.state == GameState::Ready,
            !r.need_draw,
            r.cursor_position == (Point { x: 0, y: 0 }),
            r.dot_position == (Point { x: 0, y: 0 }),
            r.score == 0,
            !r.dot_pending,
            r.rng@ == (seed | 1u64),
            r.time_limit_ms == BASE_TIME_LIMIT_MS,
            !r.up_pressed && !r.down_pressed && !r.left_pressed && !r.right_pressed,
            r.pending_tts is None,
    {
        FindDot {
            state: GameState::Ready,
            need_draw: false,
            cursor_position: Point { x: 0, y: 0 },
            dot_position: Point { x: 0, y: 0 },
            frame_count: 0,
            dot_visible: false,
            score: 0,
            dot_pending: false,
            rng: Rng::new(seed),
            round_start: 0,
            time_limit_ms: BASE_TIME_LIMIT_MS,
            up_pressed: false,
            down_pressed: false,
            left_pressed: false,
            right_pressed: false,
            held_since: 0,
            last_repeat: 0,
            last_key_event: 0,
            heartbeat_armed: false,
            pending_tts: None,
        }
    }

    /// A random point of the play area (two numbers drawn).
    pub fn random_point(&mut self, width: i16, height: i16) -> (r: Point)
        requires
            width >= i16::MIN + 2,
            height >= i16::MIN + 1,
        ensures
            r == random_point_at(old(self).rng@, width, height),
            final(self).rng@ == xorshift(xorshift(old(self).rng@)),
            *final(self) == (FindDot { rng: final(self).rng, ..*old(self) }),
            1 <= r.x,
            1 <= r.y,
    {
        let xs: i16 = if width - 2 * PLAY_PADDING > 1 { width - 2 * PLAY_PADDING } else { 1 };
        let ys: i16 = if height - PLAY_PADDING > 1 { height - PLAY_PADDING } else { 1 };
        let a = self.rng.next_u32();
        let b = self.rng.next_u32();
        let x = PLAY_PADDING + (a % (xs as u32)) as i16;
        let y = PLAY_PADDING + (b % (ys as u32)) as i16;
        Point { x, y }
    }

    /// One draw of a new dot: taken when it lies farther than the finding distance
    /// from the cursor (the dot then shows and its blinking restarts). Returns
    /// whether it was taken.
    pub fn try_spawn_dot(&mut self, width: i16, height: i16) -> (r: bool)
        requires
            width >= i16::MIN + 2,
            height >= i16::MIN + 1,
            old(self).cursor_position.x >= 0,
            old(self).cursor_position.y >= 0,
        ensures
            final(self).rng@ == xorshift(xorshift(old(self).rng@)),
            r == !close(old(self).cursor_position, random_point_at(old(self).rng@, width, height)),
            r ==> final(self).dot_position == random_point_at(old(self).rng@, width, height)
                && final(self).dot_visible && final(self).frame_count == 0 && !final(self).dot_pending,
            !r ==> final(self).dot_position == old(self).dot_position && final(self).dot_pending
                == old(self).dot_pending && final(self).dot_visible == old(self).dot_visible
                && final(self).frame_count == old(self).frame_count,
            final(self).state == old(self).state,
            final(self).cursor_position == old(self).cursor_position,
            final(self).score == old(self).score,
    {
        let pt = self.random_point(width, height);
        let dx = (self.cursor_position.x as i32) - (pt.x as i32);
        let dy = (self.cursor_position.y as i32) - (pt.y as i32);
        assert(0 <= dx * dx <= 0x3fff_0001 && 0 <= dy * dy <= 0x3fff_0001) by (nonlinear_arith)
            requires
                -0x7fff <= dx <= 0x7fff,
                -0x7fff <= dy <= 0x7fff,
        ;
        if dx * dx + dy * dy > COLLISION_DIST_SQ {
            self.dot_position = pt;
            self.dot_visible = true;
            self.frame_count = 0;
            self.dot_pending = false;
            true
        } else {
            false
        }
    }

    /// The height of the play area on a display: the progress bar and its gap are
    /// taken off.
    pub fn game_area_height(&self, display_height: i16) -> (r: i16)
        requires
            display_height >= i16::MIN + 3,
        ensures
            r == display_height - PROGRESS_BAR_HEIGHT - PROGRESS_BAR_GAP,
    {
        display_height - PROGRESS_BAR_HEIGHT - PROGRESS_BAR_GAP
    }

    /// A round starts now, with the time limit of the current score.
    pub fn start_round(&mut self, now: u64)
        requires
            (old(self).score / SCORE_PER_DIFFICULTY) * TIME_REDUCE_MS <= u32::MAX,
        ensures
            final(self).round_start == now,
            final(self).time_limit_ms == time_limit_for(old(self).score),
            final(self).score == old(self).score,
            final(self).state == old(self).state,
    {
        self.round_start = now;
        self.time_limit_ms = calc_time_limit(self.score);
    }

    /// Milliseconds left in the round (the progress bar shows this out of
    /// `time_limit_ms`).
    pub fn remaining_ms(&self, now: u64) -> (r: u32)
        requires
            self.round_start <= now,
        ensures
            r == if elapsed32(now, self.round_start) >= self.time_limit_ms {
                0
            } else {
                self.time_limit_ms - elapsed32(now, self.round_start)
            },
    {
        let e = elapsed_ms(now, self.round_start);
        if e >= self.time_limit_ms {
            0
        } else {
            self.time_limit_ms - e
        }
    }

    /// A new game: the cursor in the middle, score reset, keys released, and a new
    /// dot to draw.
    pub fn start_game(&mut self, display_width: i16, game_area_height: i16, now: u64)
        ensures
            *final(self) == start_game_spec(*old(self), display_width, game_area_height, now),
    {
        self.state = GameState::Playing;
        self.cursor_position = Point { x: display_width / 2, y: game_area_height / 2 };
        self.dot_pending = true;
        self.score = 0;
        self.up_pressed = false;
        self.down_pressed = false;
        self.left_pressed = false;
        self.right_pressed = false;
        self.heartbeat_armed = false;
        self.round_start = now;
        self.time_limit_ms = calc_time_limit(self.score);
    }
}


/// Whether any direction key is held.
pub open spec fn any_held(g: FindDot) -> bool {
    g.up_pressed || g.down_pressed || g.left_pressed || g.right_pressed
}

/// Whether a held direction repeats now (see `FindDot::poll_repeat`).
pub open spec fn poll_spec(g: FindDot, now: u64) -> (FindDot, bool) {
    if !any_held(g) {
        (g, false)
    } else if g.heartbeat_armed && now - g.last_key_event > KEY_ALIVE_TIMEOUT_MS {
        (
            FindDot {
                up_pressed: false,
                down_pressed: false,
                left_pressed: false,
                right_pressed: false,
                heartbeat_armed: false,
                ..g
            },
            false,
        )
    } else if now - g.held_since < REPEAT_DELAY_MS {
        (g, false)
    } else if now - g.last_repeat >= REPEAT_INTERVAL_MS {
        (FindDot { last_repeat: now, ..g }, true)
    } else {
        (g, false)
    }
}

/// One frame while playing (see `FindDot::handle_playing_tick`).
pub open spec fn playing_tick_spec(g: FindDot, eff: Seq<FindEffect>, now: u64) -> (FindDot, Seq<FindEffect>) {
    if elapsed32(now, g.round_start) >= g.time_limit_ms {
        (FindDot { state: GameState::End, pending_tts: None, ..g }, eff.push(FindEffect::SayGameOver(g.score)))
    } else {
        let fc = g.frame_count + 1;
        let (tts, said) = match g.pending_tts {
            Some((n, at)) => if now >= at {
                (None::<(u32, u64)>, seq![FindEffect::SayScore(n)])
            } else {
                (g.pending_tts, Seq::<FindEffect>::empty())
            },
            None => (None::<(u32, u64)>, Seq::<FindEffect>::empty()),
        };
        (
            FindDot {
                pending_tts: tts,
                frame_count: if fc >= BLINK_INTERVAL_FRAMES { 0 } else { fc as u32 },
                dot_visible: if fc >= BLINK_INTERVAL_FRAMES { !g.dot_visible } else { g.dot_visible },
                ..g
            },
            eff + said,
        )
    }
}

/// A new game (see `FindDot::start_game`).
pub open spec fn start_game_spec(g: FindDot, display_width: i16, game_area_height: i16, now: u64) -> FindDot {
    FindDot {
        state: GameState::Playing,
        cursor_position: Point { x: half(display_width), y: half(game_area_height) },
        dot_pending: true,
        score: 0,
        up_pressed: false,
        down_pressed: false,
        left_pressed: false,
        right_pressed: false,
        heartbeat_armed: false,
        round_start: now,
        time_limit_ms: BASE_TIME_LIMIT_MS,
        ..g
    }
}

/// A key going down (see `FindDot::on_key_pressed`).
pub open spec fn pressed_spec(g: FindDot, code: KeyCode, now: u64) -> FindDot {
    FindDot {
        up_pressed: g.up_pressed || code == KeyCode::Up,
        down_pressed: g.down_pressed || code == KeyCode::Down,
        left_pressed: g.left_pressed || code == KeyCode::Left,
        right_pressed: g.right_pressed || code == KeyCode::Right,
        held_since: now,
        last_repeat: now,
        last_key_event: now,
        heartbeat_armed: false,
        ..g
    }
}

/// A key going up (see `FindDot::on_key_released`).
pub open spec fn released_spec(g: FindDot, code: KeyCode) -> FindDot {
    FindDot {
        up_pressed: g.up_pressed && code != KeyCode::Up,
        down_pressed: g.down_pressed && code != KeyCode::Down,
        left_pressed: g.left_pressed && code != KeyCode::Left,
        right_pressed: g.right_pressed && code != KeyCode::Right,
        heartbeat_armed: false,
        ..g
    }
}

/// A key event (see `FindDot::handle_key_event`).
pub open spec fn key_event_spec(g: FindDot, eff: Seq<FindEffect>, code: KeyCode, key_state: KeyState,
    display_width: i16, game_area_height: i16, now: u64) -> (FindDot, Seq<FindEffect>, bool) {
    match key_state {
        KeyState::Pressed => {
            let g1 = pressed_spec(g, code, now);
            if (g1.state == GameState::Ready || g1.state == GameState::End) && code == KeyCode::Center {
                (start_game_spec(g1, display_width, game_area_height, now), eff.push(FindEffect::SayStart), true)
            } else if g1.state == GameState::Playing {
                play_input(g1, eff, display_width, game_area_height, now)
            } else {
                (g1, eff, false)
            }
        },
        KeyState::Released => (released_spec(g, code), eff, false),
    }
}

/// Room to move and score: the positions are on the display, and the score, its
/// level factor and the clock have room for one more find.
pub open spec fn play_ok(g: FindDot, display_width: i16, game_area_height: i16, now: u64) -> bool {
    &&& display_width >= 0
    &&& game_area_height >= 0
    &&& g.score < u32::MAX
    &&& ((g.score + 1) / (SCORE_PER_DIFFICULTY as int)) * TIME_REDUCE_MS <= u32::MAX
    &&& now <= u64::MAX - SOUND_EFFECT_DURATION_MS
    &&& g.cursor_position.x >= 0
    &&& g.cursor_position.y >= 0
    &&& g.dot_position.x >= 0
    &&& g.dot_position.y >= 0
}

impl FindDot {
    /// Handles one key event. A press holds its direction; Center starts a game
    /// from the start or end screen, and while playing the cursor moves. Returns
    /// whether the screen changed.
    pub fn handle_key_event(&mut self, code: KeyCode, key_state: KeyState, display_width: i16,
        game_area_height: i16, now: u64, effects: &mut Vec<FindEffect>) -> (r: bool)
        requires
            play_ok(*old(self), display_width, game_area_height, now),
        ensures
            (*final(self), final(effects)@, r) == key_event_spec(*old(self), old(effects)@, code, key_state,
                display_width, game_area_height, now),
    {
        match key_state {
            KeyState::Pressed => {
                self.on_key_pressed(code, now);
                if (self.state == GameState::Ready || self.state == GameState::End) && code == KeyCode::Center {
                    effects.push(FindEffect::SayStart);
                    self.start_game(display_width, game_area_height, now);
                    true
                } else if self.state == GameState::Playing {
                    self.handle_playing_input(display_width, game_area_height, now, effects)
                } else {
                    false
                }
            },
            KeyState::Released => {
                self.on_key_released(code);
                false
            },
        }
    }

    /// The timed part of an update, after the keys. While playing, a due repeat
    /// moves the cursor, then the frame advances; the screen is then always
    /// redrawn. Otherwise the screen is redrawn when the keys changed it or a
    /// redraw is pending. Returns whether to redraw.
    pub fn tick(&mut self, display_width: i16, game_area_height: i16, now: u64, keys_updated: bool,
        effects: &mut Vec<FindEffect>) -> (r: bool)
        requires
            play_ok(*old(self), display_width, game_area_height, now),
            old(self).last_key_event <= now,
            old(self).held_since <= now,
            old(self).last_repeat <= now,
            old(self).round_start <= now,
            old(self).frame_count < u32::MAX,
        ensures
            old(self).state == GameState::Playing ==> {
                let (g1, rep) = poll_spec(*old(self), now);
                let (g2, e2, m) = if rep {
                    play_input(g1, old(effects)@, display_width, game_area_height, now)
                } else {
                    (g1, old(effects)@, false)
                };
                &&& (*final(self), final(effects)@) == playing_tick_spec(g2, e2, now)
                &&& r
            },
            old(self).state != GameState::Playing ==> {
                &&& r == (keys_updated || old(self).need_draw)
                &&& *final(self) == (FindDot { need_draw: if r { false } else { old(self).need_draw }, ..*old(self) })
                &&& final(effects)@ == old(effects)@
            },
    {
        if self.state == GameState::Playing {
            if self.poll_repeat(now) {
                self.handle_playing_input(display_width, game_area_height, now, effects);
            }
            self.handle_playing_tick(now, effects);
            true
        } else if keys_updated || self.need_draw {
            self.need_draw = false;
            true
        } else {
            false
        }
    }
}

/// Half of `v`, rounded toward zero (Rust's integer division).
pub open spec fn half(v: i16) -> i16 {
    if v >= 0 {
        (v / 2) as i16
    } else {
        (-((-v) / 2)) as i16
    }
}

/// Milliseconds from `start` to `now`, kept to 32 bits.
pub open spec fn elapsed32(now: u64, start: u64) -> u32 {
    ((now - start) % 0x1_0000_0000) as u32
}

fn elapsed_ms(now: u64, start: u64) -> (r: u32)
    requires
        start <= now,
    ensures
        r == elapsed32(now, start),
{
    let d = now - start;
    let r = #[verifier::truncate] (d as u32);
    assert(d as u32 == d % 0x1_0000_0000) by (bit_vector);
    r
}


/// The step along one axis: -1 for the lower key when the cursor can go lower, +1
/// for the upper key when it can go higher (both together cancel).
pub open spec fn axis_step(low_key: bool, can_lower: bool, high_key: bool, can_raise: bool) -> int {
    (if low_key && can_lower { -1int } else { 0int }) + (if high_key && can_raise { 1int } else { 0int })
}

pub open spec fn step_x(g: FindDot, display_width: i16) -> int {
    axis_step(g.left_pressed, g.cursor_position.x > PLAY_PADDING, g.right_pressed,
        g.cursor_position.x < display_width - 1 - PLAY_PADDING)
}

pub open spec fn step_y(g: FindDot, game_area_height: i16) -> int {
    axis_step(g.up_pressed, g.cursor_position.y > PLAY_PADDING, g.down_pressed,
        g.cursor_position.y < game_area_height - 1)
}

/// Moving the cursor with the held keys (see `FindDot::handle_playing_input`):
/// the game after, the effects after, and whether the cursor moved.
pub open spec fn play_input(g: FindDot, eff: Seq<FindEffect>, display_width: i16, game_area_height: i16, now: u64) -> (FindDot, Seq<FindEffect>, bool) {
    let sx = step_x(g, display_width);
    let sy = step_y(g, game_area_height);
    if sx == 0 && sy == 0 {
        (g, eff, false)
    } else {
        let c = Point { x: (g.cursor_position.x + sx) as i16, y: (g.cursor_position.y + sy) as i16 };
        let moved = FindDot { cursor_position: c, ..g };
        if close(c, g.dot_position) {
            (
                FindDot {
                    score: (g.score + 1) as u32,
                    pending_tts: Some(((g.score + 1) as u32, (now + SOUND_EFFECT_DURATION_MS) as u64)),
                    dot_pending: true,
                    round_start: now,
                    time_limit_ms: time_limit_for((g.score + 1) as u32),
                    ..moved
                },
                eff.push(FindEffect::PlayFind),
                true,
            )
        } else {
            (moved, eff, true)
        }
    }
}

impl FindDot {
    /// Moves the cursor one pin along each axis whose key is held, inside the play
    /// area. When it comes within the finding distance of the dot, the find sound
    /// plays, the score goes up and is said after the sound, a new dot is to be
    /// drawn and a new round starts. Returns whether the cursor moved.
    #[verifier::rlimit(30)]
    pub fn handle_playing_input(&mut self, display_width: i16, game_area_height: i16, now: u64,
        effects: &mut Vec<FindEffect>) -> (moved: bool)
        requires
            display_width >= i16::MIN + 2,
            game_area_height >= i16::MIN + 1,
            old(self).score < u32::MAX,
            ((old(self).score + 1) / (SCORE_PER_DIFFICULTY as int)) * TIME_REDUCE_MS <= u32::MAX,
            now <= u64::MAX - SOUND_EFFECT_DURATION_MS,
            old(self).cursor_position.x >= 0,
            old(self).cursor_position.y >= 0,
            old(self).dot_position.x >= 0,
            old(self).dot_position.y >= 0,
        ensures
            (*final(self), final(effects)@, moved) == play_input(*old(self), old(effects)@, display_width, game_area_height, now),
    {
        let mut dx: i16 = 0;
        let mut dy: i16 = 0;
        if self.up_pressed && self.cursor_position.y > PLAY_PADDING {
            dy -= 1;
        }
        if self.down_pressed && self.cursor_position.y < game_area_height - 1 {
            dy += 1;
        }
        if self.left_pressed && self.cursor_position.x > PLAY_PADDING {
            dx -= 1;
        }
        if self.right_pressed && self.cursor_position.x < display_width - 1 - PLAY_PADDING {
            dx += 1;
        }
        if dx != 0 || dy != 0 {
            self.cursor_position.x = self.cursor_position.x + dx;
            self.cursor_position.y = self.cursor_position.y + dy;
            let ddx = (self.cursor_position.x as i32) - (self.dot_position.x as i32);
            let ddy = (self.cursor_position.y as i32) - (self.dot_position.y as i32);
            assert(0 <= ddx * ddx <= 0x3fff_0001 && 0 <= ddy * ddy <= 0x3fff_0001) by (nonlinear_arith)
                requires
                    -0x7fff <= ddx <= 0x7fff,
                    -0x7fff <= ddy <= 0x7fff,
            ;
            if ddx * ddx + ddy * ddy <= COLLISION_DIST_SQ {
                self.score = self.score + 1;
                effects.push(FindEffect::PlayFind);
                self.pending_tts = Some((self.score, now + SOUND_EFFECT_DURATION_MS));
                self.dot_pending = true;
                self.round_start = now;
                self.time_limit_ms = calc_time_limit(self.score);
            }
            return true;
        }
        false
    }

    /// A direction key went down: it is held from now on, and the key watchdog is
    /// disarmed.
    pub fn on_key_pressed(&mut self, code: KeyCode, now: u64)
        ensures
            final(self).up_pressed == (old(self).up_pressed || code == KeyCode::Up),
            final(self).down_pressed == (old(self).down_pressed || code == KeyCode::Down),
            final(self).left_pressed == (old(self).left_pressed || code == KeyCode::Left),
            final(self).right_pressed == (old(self).right_pressed || code == KeyCode::Right),
            final(self).held_since == now,
            final(self).last_repeat == now,
            final(self).last_key_event == now,
            !final(self).heartbeat_armed,
            *final(self) == (FindDot {
                up_pressed: final(self).up_pressed,
                down_pressed: final(self).down_pressed,
                left_pressed: final(self).left_pressed,
                right_pressed: final(self).right_pressed,
                held_since: now,
                last_repeat: now,
                last_key_event: now,
                heartbeat_armed: false,
                ..*old(self)
            }),
    {
        match code {
            KeyCode::Up => self.up_pressed = true,
            KeyCode::Down => self.down_pressed = true,
            KeyCode::Left => self.left_pressed = true,
            KeyCode::Right => self.right_pressed = true,
            _ => {},
        }
        self.held_since = now;
        self.last_repeat = now;
        self.last_key_event = now;
        self.heartbeat_armed = false;
    }

    /// A direction key went up.
    pub fn on_key_released(&mut self, code: KeyCode)
        ensures
            *final(self) == (FindDot {
                up_pressed: old(self).up_pressed && code != KeyCode::Up,
                down_pressed: old(self).down_pressed && code != KeyCode::Down,
                left_pressed: old(self).left_pressed && code != KeyCode::Left,
                right_pressed: old(self).right_pressed && code != KeyCode::Right,
                heartbeat_armed: false,
                ..*old(self)
            }),
    {
        match code {
            KeyCode::Up => self.up_pressed = false,
            KeyCode::Down => self.down_pressed = false,
            KeyCode::Left => self.left_pressed = false,
            KeyCode::Right => self.right_pressed = false,
            _ => {},
        }
        self.heartbeat_armed = false;
    }

    /// Whether a held direction repeats now: nothing is held; or the watchdog is
    /// armed and no key event came for `KEY_ALIVE_TIMEOUT_MS` (then every key is
    /// released); or the keys are held for less than `REPEAT_DELAY_MS`; otherwise a
    /// repeat is due every `REPEAT_INTERVAL_MS`.
    pub fn poll_repeat(&mut self, now: u64) -> (r: bool)
        requires
            old(self).last_key_event <= now,
            old(self).held_since <= now,
            old(self).last_repeat <= now,
        ensures
            (*final(self), r) == poll_spec(*old(self), now),
    {
        if !(self.up_pressed || self.down_pressed || self.left_pressed || self.right_pressed) {
            return false;
        }
        if self.heartbeat_armed && now - self.last_key_event > KEY_ALIVE_TIMEOUT_MS {
            self.up_pressed = false;
            self.down_pressed = false;
            self.left_pressed = false;
            self.right_pressed = false;
            self.heartbeat_armed = false;
            return false;
        }
        if now - self.held_since < REPEAT_DELAY_MS {
            return false;
        }
        if now - self.last_repeat >= REPEAT_INTERVAL_MS {
            self.last_repeat = now;
            true
        } else {
            false
        }
    }

    /// One frame while playing: when the time is up the game ends and the score is
    /// said; otherwise a due score is said and the dot blinks every
    /// `BLINK_INTERVAL_FRAMES` frames.
    pub fn handle_playing_tick(&mut self, now: u64, effects: &mut Vec<FindEffect>)
        requires
            old(self).round_start <= now,
            old(self).frame_count < u32::MAX,
        ensures
            (*final(self), final(effects)@) == playing_tick_spec(*old(self), old(effects)@, now),
    {
        if self.remaining_ms(now) == 0 {
            self.state = GameState::End;
            self.pending_tts = None;
            effects.push(FindEffect::SayGameOver(self.score));
            return;
        }
        match self.pending_tts {
            Some((n, at)) => {
                if now >= at {
                    self.pending_tts = None;
                    effects.push(FindEffect::SayScore(n));
                    assert(effects@ =~= old(effects)@ + seq![FindEffect::SayScore(n)]);
                } else {
                    assert(effects@ =~= old(effects)@ + Seq::<FindEffect>::empty());
                }
            },
            None => {
                assert(effects@ =~= old(effects)@ + Seq::<FindEffect>::empty());
            },
        }
        self.frame_count = self.frame_count + 1;
        if self.frame_count >= BLINK_INTERVAL_FRAMES {
            self.frame_count = 0;
            self.dot_visible = !self.dot_visible;
        }
    }
}

/// The dot as a five-by-five cross round `p`: its row from left to right, then
/// its column from top to bottom without the centre, at full strength when
/// visible and off otherwise.
pub open spec fn dot_cross(p: Point, visible: bool) -> Seq<(int, int, u8)> {
    let v: u8 = if visible { 255 } else { 0 };
    let x = p.x as int;
    let y = p.y as int;
    seq![(x - 2, y, v), (x - 1, y, v), (x, y, v), (x + 1, y, v), (x + 2, y, v),
        (x, y - 2, v), (x, y - 1, v), (x, y + 1, v), (x, y + 2, v)]
}

/// The pins of the blinking dot (see `dot_cross`).
pub fn blinking_dot_pins(p: Point, visible: bool) -> (r: Vec<(i16, i16, u8)>)
    requires
        i16::MIN + 2 <= p.x <= i16::MAX - 2,
        i16::MIN + 2 <= p.y <= i16::MAX - 2,
    ensures
        r@.map_values(|q: (i16, i16, u8)| (q.0 as int, q.1 as int, q.2)) == dot_cross(p, visible),
{
    let v: u8 = if visible { 255 } else { 0 };
    let mut r: Vec<(i16, i16, u8)> = Vec::new();
    let mut dx: i16 = -2;
    while dx <= 2
        invariant
            i16::MIN + 2 <= p.x <= i16::MAX - 2,
            -2 <= dx <= 3,
            r@.len() == dx + 2,
            forall|i: int| 0 <= i < r@.len() ==> #[trigger] r@[i] == ((p.x + i - 2) as i16, p.y, v),
        decreases 3 - dx,
    {
        r.push((p.x + dx, p.y, v));
        dx += 1;
    }
    let mut dy: i16 = -2;
    while dy <= 2
        invariant
            i16::MIN + 2 <= p.y <= i16::MAX - 2,
            -2 <= dy <= 3,
            r@.len() == 5 + (if dy <= 0 { dy + 2 } else { dy + 1 }),
            forall|i: int| 0 <= i < 5 ==> #[trigger] r@[i] == ((p.x + i - 2) as i16, p.y, v),
            forall|i: int| 5 <= i < r@.len() ==> #[trigger] r@[i] == (p.x, (p.y + (if i < 7 { i - 7 } else { i - 6 })) as i16, v),
        decreases 3 - dy,
    {
        if dy != 0 {
            r.push((p.x, p.y + dy, v));
        }
        dy += 1;
    }
    assert(r@.map_values(|q: (i16, i16, u8)| (q.0 as int, q.1 as int, q.2)) =~= dot_cross(p, visible));
    r
}

} // verus!

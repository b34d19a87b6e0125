//! The rules of Breakout: menu and key handling, lives, levels, bricks and power-ups.
//!
//! Positions, velocities, colours and timers are the caller's; this module keeps and
//! decides the plain state and tells the caller which continuous updates to apply.

use vstd::prelude::*;
use crate::game_level::{GameLevel, Brick, can_build, level_tiles, loaded};
use crate::post_processor::PostProcessor;
use crate::power_up::{PowerUp, PowerUpKind, is_other_power_up_active, some_active, str_equals, kind_type_str};
use crate::resource_manager::ResourceManager;
use crate::filesystem::{get_path, resolved_path};

verus! {

/// Represents the current state of the game.
#[derive(Clone, Copy, PartialEq, Eq, Structural, Debug)]
pub enum GameState {
    Active,
    Menu,
    Win,
}

/// The four directions a collision can come from.
#[derive(Clone, Copy, PartialEq, Eq, Structural, Debug)]
pub enum Direction {
    Up,
    Right,
    Down,
    Left,
}

/// The compass index of a direction: up 0, right 1, down 2, left 3.
pub open spec fn direction_index(d: Direction) -> int {
    match d {
        Direction::Up => 0,
        Direction::Right => 1,
        Direction::Down => 2,
        Direction::Left => 3,
    }
}

impl Direction {
    /// The compass index of the direction.
    pub fn index(&self) -> (r: usize)
        ensures
            r == direction_index(*self),
    {
        match self {
            Direction::Up => 0,
            Direction::Right => 1,
            Direction::Down => 2,
            Direction::Left => 3,
        }
    }

    /// The direction with compass index `i`, if there is one.
    pub fn from_index(i: isize) -> (r: Option<Direction>)
        ensures
            r matches Some(d) ==> direction_index(d) == i,
            r is None <==> !(0 <= i < 4),
    {
        match i {
            0 => Some(Direction::Up),
            1 => Some(Direction::Right),
            2 => Some(Direction::Down),
            3 => Some(Direction::Left),
            _ => None,
        }
    }
}

/// The keys the game reacts to.
#[derive(Clone, Copy, PartialEq, Eq, Structural, Debug)]
pub enum GameKey {
    Enter,
    W,
    S,
    A,
    D,
    Space,
}

/// The GLFW key code of a key, which is its index in the key tables.
pub open spec fn key_code(k: GameKey) -> int {
    match k {
        GameKey::Enter => 257,
        GameKey::W => 87,
        GameKey::S => 83,
        GameKey::A => 65,
        GameKey::D => 68,
        GameKey::Space => 32,
    }
}

impl GameKey {
    /// The GLFW key code of the key (GLFW's `GLFW_KEY_*` values), its index in the key tables.
    pub fn code(&self) -> (r: usize)
        ensures
            r == key_code(*self),
    {
        match self {
            GameKey::Enter => 257,
            GameKey::W => 87,
            GameKey::S => 83,
            GameKey::A => 65,
            GameKey::D => 68,
            GameKey::Space => 32,
        }
    }
}

/// The ball's plain state.
#[derive(Clone, Copy, PartialEq, Eq, Structural, Debug)]
pub struct BallObject {
    /// The ball rests on the paddle and moves with it.
    pub stuck: bool,
    /// The ball sticks to the paddle when it hits it.
    pub sticky: bool,
    /// The ball passes through breakable bricks.
    pub pass_through: bool,
}

impl BallObject {
    /// A ball resting on the paddle, without power-ups.
    pub fn new() -> (r: Self)
        ensures
            r == (BallObject { stuck: true, sticky: false, pass_through: false }),
    {
        BallObject { stuck: true, sticky: false, pass_through: false }
    }

    /// Puts the ball back on the paddle and removes its power-ups.
    pub fn reset(&mut self)
        ensures
            *final(self) == (BallObject { stuck: true, sticky: false, pass_through: false }),
    {
        self.stuck = true;
        self.sticky = false;
        self.pass_through = false;
    }
}

/// Which paddle moves the keys ask for this frame, and whether the ball moves along.
#[derive(Clone, Copy, PartialEq, Eq, Structural, Debug)]
pub struct PaddleMoves {
    pub left: bool,
    pub right: bool,
    pub carry_ball: bool,
}

/// Effects of an expired power-up that the caller undoes on its bodies.
#[derive(Clone, Copy, PartialEq, Eq, Structural, Debug)]
pub struct PowerUpResets {
    /// Give the paddle its plain colour back.
    pub player_color: bool,
    /// Give the ball its plain colour back.
    pub ball_color: bool,
}

/// The kind a power-up type name stands for, if any.
pub open spec fn kind_of_type(t: Seq<char>) -> Option<PowerUpKind> {
    if t == "speed"@ {
        Some(PowerUpKind::Speed)
    } else if t == "sticky"@ {
        Some(PowerUpKind::Sticky)
    } else if t == "pass-through"@ {
        Some(PowerUpKind::PassThrough)
    } else if t == "pad-size-increase"@ {
        Some(PowerUpKind::PadSizeIncrease)
    } else if t == "confuse"@ {
        Some(PowerUpKind::Confuse)
    } else if t == "chaos"@ {
        Some(PowerUpKind::Chaos)
    } else {
        None
    }
}

/// The power-ups after those among the first `upto` that are active and whose time ran out
/// are deactivated.
pub open spec fn expire_upto<B>(power_ups: Seq<PowerUp<B>>, expired: Seq<bool>, upto: int) -> Seq<PowerUp<B>> {
    Seq::new(
        power_ups.len(),
        |i: int|
            if i < upto && power_ups[i].activated && expired[i] {
                PowerUp { activated: false, ..power_ups[i] }
            } else {
                power_ups[i]
            },
    )
}

/// The power-ups after every active one whose time ran out is deactivated.
pub open spec fn expire<B>(power_ups: Seq<PowerUp<B>>, expired: Seq<bool>) -> Seq<PowerUp<B>> {
    expire_upto(power_ups, expired, power_ups.len() as int)
}

/// Power-up `i` of type `t` runs out, and once it is deactivated no other power-up of type
/// `t` is active: its effect is undone.
pub open spec fn undoes<B>(power_ups: Seq<PowerUp<B>>, expired: Seq<bool>, i: int, t: Seq<char>) -> bool {
    &&& power_ups[i].activated
    &&& expired[i]
    &&& power_ups[i].type_str@ == t
    &&& !some_active(expire_upto(power_ups, expired, i + 1), t)
}

/// The effect of type `t` is undone by one of the first `upto` power-ups.
pub open spec fn undone_upto<B>(power_ups: Seq<PowerUp<B>>, expired: Seq<bool>, t: Seq<char>, upto: int) -> bool {
    exists|i: int| 0 <= i < upto && #[trigger] undoes(power_ups, expired, i, t)
}

/// The effect of type `t` is undone by one of the power-ups.
pub open spec fn undone<B>(power_ups: Seq<PowerUp<B>>, expired: Seq<bool>, t: Seq<char>) -> bool {
    undone_upto(power_ups, expired, t, power_ups.len() as int)
}

/// The ball after the sticky and pass-through effects undone by the first `upto` power-ups.
pub open spec fn ball_after<B>(ball: Option<BallObject>, power_ups: Seq<PowerUp<B>>, expired: Seq<bool>, upto: int) -> Option<
    BallObject,
> {
    match ball {
        Some(b) => Some(
            BallObject {
                sticky: b.sticky && !undone_upto(power_ups, expired, "sticky"@, upto),
                pass_through: b.pass_through && !undone_upto(power_ups, expired, "pass-through"@, upto),
                ..b
            },
        ),
        None => None,
    }
}

/// The effects after the confuse and chaos effects undone by the first `upto` power-ups.
pub open spec fn effects_after<B>(
    effects: Option<PostProcessor>,
    power_ups: Seq<PowerUp<B>>,
    expired: Seq<bool>,
    upto: int,
) -> Option<PostProcessor> {
    match effects {
        Some(e) => Some(
            PostProcessor {
                confuse: e.confuse && !undone_upto(power_ups, expired, "confuse"@, upto),
                chaos: e.chaos && !undone_upto(power_ups, expired, "chaos"@, upto),
                ..e
            },
        ),
        None => None,
    }
}

/// An effect ends when the only active power-up of its type runs out, and it never ends
/// while a power-up of its type stays active without running out.
pub proof fn lemma_effect_ends_with_last_power_up<B>(
    power_ups: Seq<PowerUp<B>>,
    expired: Seq<bool>,
    t: Seq<char>,
    i: int,
)
    requires
        expired.len() == power_ups.len(),
        0 <= i < power_ups.len(),
    ensures
        power_ups[i].activated && expired[i] && power_ups[i].type_str@ == t && (forall|j: int|
            0 <= j < power_ups.len() && j != i ==> !(#[trigger] power_ups[j].activated && power_ups[j].type_str@
                == t)) ==> undone(power_ups, expired, t),
        power_ups[i].activated && !expired[i] && power_ups[i].type_str@ == t ==> !undone(power_ups, expired, t),
{
    let n = power_ups.len() as int;
    if power_ups[i].activated && expired[i] && power_ups[i].type_str@ == t && (forall|j: int|
        0 <= j < n && j != i ==> !(#[trigger] power_ups[j].activated && power_ups[j].type_str@ == t)) {
        let e = expire_upto(power_ups, expired, i + 1);
        if some_active(e, t) {
            let j = choose|j: int| 0 <= j < e.len() && #[trigger] e[j].activated && e[j].type_str@ == t;
            if j != i {
                assert(e[j] == power_ups[j] || !e[j].activated);
            }
        }
        assert(undoes(power_ups, expired, i, t));
        assert(undone_upto(power_ups, expired, t, n));
    }
    if power_ups[i].activated && !expired[i] && power_ups[i].type_str@ == t {
        assert forall|k: int| 0 <= k < n implies !#[trigger] undoes(power_ups, expired, k, t) by {
            let e = expire_upto(power_ups, expired, k + 1);
            assert(e[i] == power_ups[i]);
            assert(e[i].activated && e[i].type_str@ == t);
        }
    }
}

/// A power-up stays in the game unless it is destroyed and no longer active.
pub open spec fn keeps<B>(p: PowerUp<B>) -> bool {
    !(p.destroyed && !p.activated)
}

/// The levels of `after` are those of `before`, with the current level (one of the four)
/// reloaded from the given lines into the upper half of the screen.
pub open spec fn level_reloaded<B>(before: Game<B>, after: Game<B>, lines: Seq<String>, resources: ResourceManager) -> bool {
    if before.level < 4 {
        let l = before.level as int;
        &&& after.levels@.len() == before.levels@.len()
        &&& forall|i: int| 0 <= i < before.levels@.len() && i != l ==> #[trigger] after.levels@[i] == before.levels@[i]
        &&& loaded(before.levels@[l], after.levels@[l], lines, before.width, before.height / 2, resources)
    } else {
        after.levels == before.levels
    }
}

/// The file name of each of the four levels.
pub open spec fn level_file_name(level: int) -> Seq<char> {
    if level == 0 {
        "one.lvl"@
    } else if level == 1 {
        "two.lvl"@
    } else if level == 2 {
        "three.lvl"@
    } else {
        "four.lvl"@
    }
}

/// The paths the four levels are first loaded from: `resources/levels/<name>` resolved
/// against the recorded repository root, in level order.
pub fn level_paths(root: &str) -> (r: Vec<String>)
    ensures
        r@.len() == 4,
        forall|i: int| 0 <= i < 4 ==> #[trigger] r@[i]@ == resolved_path(
            root@,
            "resources/levels/"@ + level_file_name(i),
        ),
{
    let mut r: Vec<String> = Vec::new();
    let mut i: u32 = 0;
    while i < 4
        invariant
            0 <= i <= 4,
            r@.len() == i,
            forall|j: int| 0 <= j < i ==> #[trigger] r@[j]@ == resolved_path(
                root@,
                "resources/levels/"@ + level_file_name(j),
            ),
        decreases 4 - i,
    {
        let mut path = String::from_str("resources/levels/");
        path.append(level_file(i).as_str());
        proof {
            reveal_strlit("resources/levels/");
        }
        r.push(get_path(root, path));
        i = i + 1;
    }
    r
}

/// The file name of level `level`, one of the four.
pub fn level_file(level: u32) -> (r: String)
    requires
        level < 4,
    ensures
        r@ == level_file_name(level as int),
{
    proof {
        reveal_strlit("one.lvl");
        reveal_strlit("two.lvl");
        reveal_strlit("three.lvl");
        reveal_strlit("four.lvl");
    }
    if level == 0 {
        String::from_str("one.lvl")
    } else if level == 1 {
        String::from_str("two.lvl")
    } else if level == 2 {
        String::from_str("three.lvl")
    } else {
        String::from_str("four.lvl")
    }
}

/// The path the current level is reloaded from when it is reset: `levels/<name>`, taken as
/// it stands, or none when the level is not one of the four.
pub fn reset_level_path(level: u32) -> (r: Option<String>)
    ensures
        level < 4 ==> (r matches Some(p) && p@ == "levels/"@ + level_file_name(level as int)),
        level >= 4 ==> r is None,
{
    if level < 4 {
        let mut path = String::from_str("levels/");
        path.append(level_file(level).as_str());
        proof {
            reveal_strlit("levels/");
        }
        Some(path)
    } else {
        None
    }
}

/// Selecting levels in the menu keeps the level among the four.
pub proof fn lemma_menu_level_in_range(level: u32, keys: Seq<bool>, processed: Seq<bool>)
    requires
        level < 4,
    ensures
        menu_level(level, keys, processed) < 4,
{
}

/// In the menu, a fresh press of W (GLFW key 87) alone selects the next of the four levels,
/// a fresh press of S (key 83) alone the previous one, wrapping around, and both together,
/// or neither, keep the level.
pub proof fn lemma_menu_selects(level: u32, keys: Seq<bool>, processed: Seq<bool>)
    requires
        level < 4,
    ensures
        (keys[87] && !processed[87]) && !(keys[83] && !processed[83]) ==> menu_level(level, keys, processed)
            == (level + 1) % 4,
        !(keys[87] && !processed[87]) && (keys[83] && !processed[83]) ==> menu_level(level, keys, processed)
            == (level + 3) % 4,
        (keys[87] && !processed[87]) == (keys[83] && !processed[83]) ==> menu_level(level, keys, processed)
            == level,
{
}

/// W and S undo each other.
pub proof fn lemma_level_up_down(level: u32)
    requires
        level < 4,
    ensures
        level_down(level_up(level)) == level,
        level_up(level_down(level)) == level,
{
}

/// Game holds the plain state of a Breakout game.
pub struct Game<B> {
    pub state: GameState,
    pub keys: Vec<bool>,
    pub keys_processed: Vec<bool>,
    pub width: u32,
    pub height: u32,
    pub levels: Vec<GameLevel>,
    pub power_ups: Vec<PowerUp<B>>,
    pub level: u32,
    pub lives: u32,
    pub ball: Option<BallObject>,
    pub effects: Option<PostProcessor>,
}

/// The key is down and its press has not been handled yet.
pub open spec fn fresh(keys: Seq<bool>, processed: Seq<bool>, k: GameKey) -> bool {
    keys[key_code(k)] && !processed[key_code(k)]
}

/// Marks the key as handled when `cond` holds.
pub open spec fn mark(processed: Seq<bool>, cond: bool, k: GameKey) -> Seq<bool> {
    if cond {
        processed.update(key_code(k), true)
    } else {
        processed
    }
}

/// The next level in the menu's cycle of four.
pub open spec fn level_up(level: u32) -> u32 {
    ((level + 1) % 4) as u32
}

/// The previous level in the menu's cycle of four.
pub open spec fn level_down(level: u32) -> u32 {
    if level > 0 {
        (level - 1) as u32
    } else {
        3
    }
}

/// The level the menu keys select.
pub open spec fn menu_level(level: u32, keys: Seq<bool>, processed: Seq<bool>) -> u32 {
    let l1 = if fresh(keys, processed, GameKey::W) {
        level_up(level)
    } else {
        level
    };
    if fresh(keys, processed, GameKey::S) {
        level_down(l1)
    } else {
        l1
    }
}

/// The handled-key table after the menu keys.
pub open spec fn menu_processed(keys: Seq<bool>, processed: Seq<bool>) -> Seq<bool> {
    let p1 = mark(processed, fresh(keys, processed, GameKey::Enter), GameKey::Enter);
    let p2 = mark(p1, fresh(keys, processed, GameKey::W), GameKey::W);
    mark(p2, fresh(keys, processed, GameKey::S), GameKey::S)
}

/// The paddle is controlled this frame: the game was active, or the menu was just left.
pub open spec fn plays_this_frame<B>(g: Game<B>) -> bool {
    g.state == GameState::Active || (g.state == GameState::Menu && fresh(
        g.keys@,
        g.keys_processed@,
        GameKey::Enter,
    ))
}

/// The key tables cover every key code.
pub open spec fn keys_wf<B>(g: Game<B>) -> bool {
    g.keys@.len() == 1024 && g.keys_processed@.len() == 1024
}

impl<B> Game<B> {
    /// A game in the menu with three lives, no levels and nothing initialised yet.
    pub fn new(width: u32, height: u32) -> (r: Self)
        ensures
            r.state == GameState::Menu,
            r.keys@ == Seq::new(1024, |i: int| false),
            r.keys_processed@ == Seq::new(1024, |i: int| false),
            r.width == width,
            r.height == height,
            r.levels@ == Seq::<GameLevel>::empty(),
            r.power_ups@ == Seq::<PowerUp<B>>::empty(),
            r.level == 0,
            r.lives == 3,
            r.ball is None,
            r.effects is None,
    {
        let mut keys: Vec<bool> = Vec::new();
        let mut keys_processed: Vec<bool> = Vec::new();
        let mut i: usize = 0;
        while i < 1024
            invariant
                0 <= i <= 1024,
                keys@ == Seq::new(i as nat, |j: int| false),
                keys_processed@ == Seq::new(i as nat, |j: int| false),
            decreases 1024 - i,
        {
            keys.push(false);
            keys_processed.push(false);
            assert(keys@ =~= Seq::new((i + 1) as nat, |j: int| false));
            assert(keys_processed@ =~= Seq::new((i + 1) as nat, |j: int| false));
            i = i + 1;
        }
        Game {
            state: GameState::Menu,
            keys,
            keys_processed,
            width,
            height,
            levels: Vec::new(),
            power_ups: Vec::new(),
            level: 0,
            lives: 3,
            ball: None,
            effects: None,
        }
    }

    /// Takes the loaded levels and the post-processor, starts at the first level and puts a
    /// fresh ball on the paddle.
    pub fn init(&mut self, levels: Vec<GameLevel>, effects: PostProcessor)
        ensures
            final(self).levels@ == old(self).levels@ + levels@,
            final(self).level == 0,
            final(self).ball == Some(BallObject { stuck: true, sticky: false, pass_through: false }),
            final(self).effects == Some(effects),
            final(self).state == old(self).state,
            final(self).keys == old(self).keys,
            final(self).keys_processed == old(self).keys_processed,
            final(self).width == old(self).width,
            final(self).height == old(self).height,
            final(self).power_ups == old(self).power_ups,
            final(self).lives == old(self).lives,
    {
        let mut levels = levels;
        self.levels.append(&mut levels);
        self.level = 0;
        self.ball = Some(BallObject::new());
        self.effects = Some(effects);
    }

    /// Handles the keys of one frame: in the menu Enter starts the game and W/S cycle the
    /// level, each press handled once; on the win screen Enter returns to the menu with the
    /// chaos effect on; while playing, A and D ask for paddle moves and Space releases the ball.
    pub fn process_input(&mut self) -> (r: PaddleMoves)
        requires
            keys_wf(*old(self)),
            old(self).state == GameState::Menu && fresh(old(self).keys@, old(self).keys_processed@, GameKey::W)
                ==> old(self).level < u32::MAX,
            old(self).state == GameState::Win && old(self).keys@[key_code(GameKey::Enter)] ==> old(self).effects is Some,
            plays_this_frame(*old(self)) && (old(self).keys@[key_code(GameKey::A)] || old(self).keys@[key_code(GameKey::D)]
                || old(self).keys@[key_code(GameKey::Space)]) ==> old(self).ball is Some,
        ensures
            ({
                let o = *old(self);
                let f = *final(self);
                let k = o.keys@;
                let p = o.keys_processed@;
                &&& keys_wf(f)
                &&& f.keys == o.keys
                &&& f.width == o.width
                &&& f.height == o.height
                &&& f.levels == o.levels
                &&& f.power_ups == o.power_ups
                &&& f.lives == o.lives
                &&& o.state == GameState::Menu ==> {
                    &&& f.state == (if fresh(k, p, GameKey::Enter) {
                        GameState::Active
                    } else {
                        GameState::Menu
                    })
                    &&& f.level == menu_level(o.level, k, p)
                    &&& f.keys_processed@ == menu_processed(k, p)
                    &&& f.effects == o.effects
                }
                &&& o.state == GameState::Win ==> {
                    &&& f.level == o.level
                    &&& if k[key_code(GameKey::Enter)] {
                        &&& f.state == GameState::Menu
                        &&& f.keys_processed@ == p.update(key_code(GameKey::Enter), true)
                        &&& f.effects == Some(PostProcessor { chaos: true, ..o.effects->0 })
                    } else {
                        &&& f.state == GameState::Win
                        &&& f.keys_processed == o.keys_processed
                        &&& f.effects == o.effects
                    }
                }
                &&& o.state == GameState::Active ==> {
                    &&& f.state == GameState::Active
                    &&& f.level == o.level
                    &&& f.keys_processed == o.keys_processed
                    &&& f.effects == o.effects
                }
                &&& if plays_this_frame(o) {
                    &&& r == PaddleMoves {
                        left: k[key_code(GameKey::A)],
                        right: k[key_code(GameKey::D)],
                        carry_ball: (k[key_code(GameKey::A)] || k[key_code(GameKey::D)]) && o.ball->0.stuck,
                    }
                    &&& f.ball == (if k[key_code(GameKey::Space)] {
                        Some(BallObject { stuck: false, ..o.ball->0 })
                    } else {
                        o.ball
                    })
                } else {
                    &&& r == PaddleMoves { left: false, right: false, carry_ball: false }
                    &&& f.ball == o.ball
                }
            }),
    {
        let enter = GameKey::Enter.code();
        let w = GameKey::W.code();
        let s = GameKey::S.code();
        let a = GameKey::A.code();
        let d = GameKey::D.code();
        let space = GameKey::Space.code();
        if self.state == GameState::Menu {
            if self.keys[enter] && !self.keys_processed[enter] {
                self.state = GameState::Active;
                self.keys_processed.set(enter, true);
            }
            if self.keys[w] && !self.keys_processed[w] {
                self.level = (self.level + 1) % 4;
                self.keys_processed.set(w, true);
            }
            if self.keys[s] && !self.keys_processed[s] {
                if self.level > 0 {
                    self.level = self.level - 1;
                } else {
                    self.level = 3;
                }
                self.keys_processed.set(s, true);
            }
        }
        if self.state == GameState::Win {
            if self.keys[enter] {
                self.keys_processed.set(enter, true);
                let mut effects = self.effects.unwrap();
                effects.chaos = true;
                self.effects = Some(effects);
                self.state = GameState::Menu;
            }
        }
        let mut moves = PaddleMoves { left: false, right: false, carry_ball: false };
        if self.state == GameState::Active {
            if self.keys[a] {
                moves.left = true;
                if self.ball.unwrap().stuck {
                    moves.carry_ball = true;
                }
            }
            if self.keys[d] {
                moves.right = true;
                if self.ball.unwrap().stuck {
                    moves.carry_ball = true;
                }
            }
            if self.keys[space] {
                let mut ball = self.ball.unwrap();
                ball.stuck = false;
                self.ball = Some(ball);
            }
        }
        moves
    }

    /// Consequences of the ball hitting brick `index` of the current level: a breakable brick
    /// is destroyed and may drop power-ups (`true`); a solid brick starts the shake effect.
    pub fn hit_brick(&mut self, index: usize) -> (spawn: bool)
        requires
            old(self).level < old(self).levels@.len(),
            index < old(self).levels@[old(self).level as int].bricks@.len(),
            old(self).levels@[old(self).level as int].bricks@[index as int].is_solid ==> old(self).effects is Some,
        ensures
            ({
                let o = *old(self);
                let f = *final(self);
                let l = o.level as int;
                let b = o.levels@[l].bricks@[index as int];
                &&& f.state == o.state && f.keys == o.keys && f.keys_processed == o.keys_processed
                &&& f.width == o.width && f.height == o.height && f.level == o.level
                &&& f.lives == o.lives && f.ball == o.ball && f.power_ups == o.power_ups
                &&& if b.is_solid {
                    &&& !spawn
                    &&& f.levels == o.levels
                    &&& f.effects == Some(PostProcessor { shake: true, ..o.effects->0 })
                } else {
                    &&& spawn
                    &&& f.effects == o.effects
                    &&& f.levels@.len() == o.levels@.len()
                    &&& forall|i: int| 0 <= i < o.levels@.len() && i != l ==> #[trigger] f.levels@[i] == o.levels@[i]
                    &&& f.levels@[l].bricks@ == o.levels@[l].bricks@.update(index as int, Brick { destroyed: true, ..b })
                    &&& f.levels@[l].columns == o.levels@[l].columns
                    &&& f.levels@[l].rows == o.levels@[l].rows
                    &&& f.levels@[l].level_width == o.levels@[l].level_width
                    &&& f.levels@[l].level_height == o.levels@[l].level_height
                }
            }),
    {
        let l = self.level as usize;
        if !self.levels[l].bricks[index].is_solid {
            let mut brick = self.levels[l].bricks[index];
            brick.destroyed = true;
            self.levels[l].bricks.set(index, brick);
            true
        } else {
            let mut effects = self.effects.unwrap();
            effects.shake = true;
            self.effects = Some(effects);
            false
        }
    }

    /// Whether the ball bounces off brick `index`: it does unless it passes through a
    /// breakable brick.
    pub fn resolves_brick_collision(&self, index: usize) -> (r: bool)
        requires
            self.level < self.levels@.len(),
            index < self.levels@[self.level as int].bricks@.len(),
            self.ball is Some,
        ensures
            r == !(self.ball->0.pass_through && !self.levels@[self.level as int].bricks@[index as int].is_solid),
    {
        let l = self.level as usize;
        !(self.ball.unwrap().pass_through && !self.levels[l].bricks[index].is_solid)
    }

    /// The ball hit the paddle while free: it sticks to the paddle if it is sticky.
    pub fn paddle_bounce(&mut self)
        requires
            old(self).ball is Some,
        ensures
            final(self).ball == Some(BallObject { stuck: old(self).ball->0.sticky, ..old(self).ball->0 }),
            final(self).state == old(self).state,
            final(self).level == old(self).level,
            final(self).lives == old(self).lives,
            final(self).levels == old(self).levels,
            final(self).power_ups == old(self).power_ups,
            final(self).effects == old(self).effects,
            final(self).keys == old(self).keys,
            final(self).keys_processed == old(self).keys_processed,
    {
        let mut ball = self.ball.unwrap();
        ball.stuck = ball.sticky;
        self.ball = Some(ball);
    }

    /// The paddle caught power-up `index`: it disappears and becomes active.
    pub fn collect_power_up(&mut self, index: usize)
        requires
            index < old(self).power_ups@.len(),
        ensures
            final(self).power_ups@.len() == old(self).power_ups@.len(),
            forall|i: int| 0 <= i < old(self).power_ups@.len() && i != index ==> #[trigger] final(self).power_ups@[i]
                == old(self).power_ups@[i],
            final(self).power_ups@[index as int].destroyed,
            final(self).power_ups@[index as int].activated,
            final(self).power_ups@[index as int].type_str == old(self).power_ups@[index as int].type_str,
            final(self).power_ups@[index as int].body == old(self).power_ups@[index as int].body,
            final(self).ball == old(self).ball,
            final(self).effects == old(self).effects,
            final(self).state == old(self).state,
            final(self).level == old(self).level,
            final(self).lives == old(self).lives,
            final(self).levels == old(self).levels,
    {
        let ghost before = self.power_ups@;
        let pu = &mut self.power_ups[index];
        pu.destroyed = true;
        pu.activated = true;
        proof {
            assert forall|i: int| 0 <= i < before.len() && i != index implies #[trigger] self.power_ups@[i] == before[i] by {}
        }
    }

    /// Applies the rule effect of power-up `index` and names its kind, so that the caller
    /// applies the effects on the bodies: speed (ball velocity), sticky (paddle colour),
    /// pass-through (ball colour), pad-size-increase (paddle width). Confuse turns on unless
    /// chaos is on, chaos unless confuse is on. An unknown type does nothing.
    pub fn activate_power_up(&mut self, index: usize) -> (r: Option<PowerUpKind>)
        requires
            index < old(self).power_ups@.len(),
            ({
                let k = kind_of_type(old(self).power_ups@[index as int].type_str@);
                &&& (k == Some(PowerUpKind::Speed) || k == Some(PowerUpKind::Sticky) || k == Some(
                    PowerUpKind::PassThrough,
                ) || k == Some(PowerUpKind::PadSizeIncrease)) ==> old(self).ball is Some
                &&& (k == Some(PowerUpKind::Confuse) || k == Some(PowerUpKind::Chaos)) ==> old(self).effects is Some
            }),
        ensures
            ({
                let o = *old(self);
                let f = *final(self);
                &&& r == kind_of_type(o.power_ups@[index as int].type_str@)
                &&& (o.effects is Some && !(o.effects->0.confuse && o.effects->0.chaos)) ==> !(
                    f.effects->0.confuse && f.effects->0.chaos)
                &&& f.power_ups == o.power_ups && f.levels == o.levels && f.state == o.state
                &&& f.level == o.level && f.lives == o.lives && f.keys == o.keys
                &&& f.keys_processed == o.keys_processed
                &&& f.ball == (match r {
                    Some(PowerUpKind::Sticky) => Some(BallObject { sticky: true, ..o.ball->0 }),
                    Some(PowerUpKind::PassThrough) => Some(BallObject { pass_through: true, ..o.ball->0 }),
                    _ => o.ball,
                })
                &&& f.effects == (match r {
                    Some(PowerUpKind::Confuse) => if o.effects->0.chaos {
                        o.effects
                    } else {
                        Some(PostProcessor { confuse: true, ..o.effects->0 })
                    },
                    Some(PowerUpKind::Chaos) => if o.effects->0.confuse {
                        o.effects
                    } else {
                        Some(PostProcessor { chaos: true, ..o.effects->0 })
                    },
                    _ => o.effects,
                })
            }),
    {
        let t = self.power_ups[index].type_str.as_str();
        if str_equals(t, "speed") {
            Some(PowerUpKind::Speed)
        } else if str_equals(t, "sticky") {
            let mut ball = self.ball.unwrap();
            ball.sticky = true;
            self.ball = Some(ball);
            Some(PowerUpKind::Sticky)
        } else if str_equals(t, "pass-through") {
            let mut ball = self.ball.unwrap();
            ball.pass_through = true;
            self.ball = Some(ball);
            Some(PowerUpKind::PassThrough)
        } else if str_equals(t, "pad-size-increase") {
            Some(PowerUpKind::PadSizeIncrease)
        } else if str_equals(t, "confuse") {
            let mut effects = self.effects.unwrap();
            if !effects.chaos {
                effects.confuse = true;
            }
            self.effects = Some(effects);
            Some(PowerUpKind::Confuse)
        } else if str_equals(t, "chaos") {
            let mut effects = self.effects.unwrap();
            if !effects.confuse {
                effects.chaos = true;
            }
            self.effects = Some(effects);
            Some(PowerUpKind::Chaos)
        } else {
            None
        }
    }

    /// Ends the active power-ups whose time ran out (`expired`, one entry per power-up, as
    /// the caller counted down their durations), in order; each one undoes its effect when,
    /// once it is deactivated, no other power-up of its type is active. Then removes every
    /// power-up that is destroyed and no longer active. Reports which colours the caller
    /// resets: the paddle's when a sticky effect ended, the ball's when a pass-through one did.
    pub fn update_power_ups(&mut self, expired: &Vec<bool>) -> (r: PowerUpResets)
        requires
            expired@.len() == old(self).power_ups@.len(),
            undone(old(self).power_ups@, expired@, "sticky"@) || undone(old(self).power_ups@, expired@, "pass-through"@)
                ==> old(self).ball is Some,
            undone(old(self).power_ups@, expired@, "confuse"@) || undone(old(self).power_ups@, expired@, "chaos"@)
                ==> old(self).effects is Some,
        ensures
            ({
                let o = *old(self);
                let f = *final(self);
                let p = o.power_ups@;
                let e = expire(p, expired@);
                &&& f.power_ups@ == e.filter(|q: PowerUp<B>| keeps(q))
                &&& forall|i: int| 0 <= i < f.power_ups@.len() ==> keeps(#[trigger] f.power_ups@[i])
                &&& f.ball == ball_after(o.ball, p, expired@, p.len() as int)
                &&& f.effects == effects_after(o.effects, p, expired@, p.len() as int)
                &&& r == PowerUpResets {
                    player_color: undone(p, expired@, "sticky"@),
                    ball_color: undone(p, expired@, "pass-through"@),
                }
                &&& f.levels == o.levels && f.state == o.state && f.level == o.level
                &&& f.lives == o.lives && f.keys == o.keys && f.keys_processed == o.keys_processed
            }),
    {
        let ghost start = self.power_ups@;
        let ghost ob = self.ball;
        let ghost oe = self.effects;
        let mut resets = PowerUpResets { player_color: false, ball_color: false };
        let n = self.power_ups.len();
        proof {
            reveal_strlit("sticky");
            reveal_strlit("pass-through");
            reveal_strlit("confuse");
            reveal_strlit("chaos");
            assert(start =~= expire_upto(start, expired@, 0));
        }
        let mut i: usize = 0;
        while i < n
            invariant
                0 <= i <= n,
                n == start.len(),
                expired@.len() == n,
                self.power_ups@ == expire_upto(start, expired@, i as int),
                undone(start, expired@, "sticky"@) || undone(start, expired@, "pass-through"@) ==> ob is Some,
                undone(start, expired@, "confuse"@) || undone(start, expired@, "chaos"@) ==> oe is Some,
                self.ball == ball_after(ob, start, expired@, i as int),
                self.effects == effects_after(oe, start, expired@, i as int),
                resets == (PowerUpResets {
                    player_color: undone_upto(start, expired@, "sticky"@, i as int),
                    ball_color: undone_upto(start, expired@, "pass-through"@, i as int),
                }),
                ob == old(self).ball,
                oe == old(self).effects,
                self.levels == old(self).levels,
                self.state == old(self).state,
                self.level == old(self).level,
                self.lives == old(self).lives,
                self.keys == old(self).keys,
                self.keys_processed == old(self).keys_processed,
                "sticky"@.len() == 6,
                "pass-through"@.len() == 12,
                "confuse"@.len() == 7,
                "chaos"@.len() == 5,
            decreases n - i,
        {
            let ghost before = self.power_ups@;
            let ghost ii = i as int;
            let ghost t = start[ii].type_str@;
            let runs_out = self.power_ups[i].activated && expired[i];
            if runs_out {
                let pu = &mut self.power_ups[i];
                pu.activated = false;
            }
            assert(self.power_ups@ =~= expire_upto(start, expired@, ii + 1));
            proof {
                // Only power-up `i` can newly undo an effect, and only that of its own type.
                assert forall|u: Seq<char>| #[trigger] undone_upto(start, expired@, u, ii + 1) == (undone_upto(
                    start,
                    expired@,
                    u,
                    ii,
                ) || undoes(start, expired@, ii, u)) by {
                    if undone_upto(start, expired@, u, ii + 1) {
                        let k = choose|k: int| 0 <= k < ii + 1 && #[trigger] undoes(start, expired@, k, u);
                        if k < ii {
                            assert(undone_upto(start, expired@, u, ii));
                        }
                    }
                    if undone_upto(start, expired@, u, ii) {
                        let k = choose|k: int| 0 <= k < ii && #[trigger] undoes(start, expired@, k, u);
                        assert(undone_upto(start, expired@, u, ii + 1));
                    }
                    if undoes(start, expired@, ii, u) {
                        assert(undone_upto(start, expired@, u, ii + 1));
                    }
                }
                assert forall|u: Seq<char>| undone_upto(start, expired@, u, ii) ==> #[trigger] undone(start, expired@, u) by {
                    if undone_upto(start, expired@, u, ii) {
                        let k = choose|k: int| 0 <= k < ii && #[trigger] undoes(start, expired@, k, u);
                        assert(undone_upto(start, expired@, u, n as int));
                    }
                }
                assert forall|u: Seq<char>| undoes(start, expired@, ii, u) ==> #[trigger] undone(start, expired@, u) by {
                    if undoes(start, expired@, ii, u) {
                        assert(undone_upto(start, expired@, u, n as int));
                    }
                }
            }
            if runs_out {
                let t_str = self.power_ups[i].type_str.as_str();
                if str_equals(t_str, "sticky") {
                    let other = is_other_power_up_active(&self.power_ups, String::from_str("sticky"));
                    if !other {
                        assert(undoes(start, expired@, ii, "sticky"@));
                        let mut ball = self.ball.unwrap();
                        ball.sticky = false;
                        self.ball = Some(ball);
                        resets.player_color = true;
                    }
                } else if str_equals(t_str, "pass-through") {
                    let other = is_other_power_up_active(&self.power_ups, String::from_str("pass-through"));
                    if !other {
                        assert(undoes(start, expired@, ii, "pass-through"@));
                        let mut ball = self.ball.unwrap();
                        ball.pass_through = false;
                        self.ball = Some(ball);
                        resets.ball_color = true;
                    }
                } else if str_equals(t_str, "confuse") {
                    let other = is_other_power_up_active(&self.power_ups, String::from_str("confuse"));
                    if !other {
                        assert(undoes(start, expired@, ii, "confuse"@));
                        let mut effects = self.effects.unwrap();
                        effects.confuse = false;
                        self.effects = Some(effects);
                    }
                } else if str_equals(t_str, "chaos") {
                    let other = is_other_power_up_active(&self.power_ups, String::from_str("chaos"));
                    if !other {
                        assert(undoes(start, expired@, ii, "chaos"@));
                        let mut effects = self.effects.unwrap();
                        effects.chaos = false;
                        self.effects = Some(effects);
                    }
                }
            }
            i = i + 1;
        }
        let ghost w = expire(start, expired@);
        assert(self.power_ups@ =~= w);
        proof {
            assert(w.take(0).filter(|p: PowerUp<B>| keeps(p)) =~= Seq::<PowerUp<B>>::empty()) by {
                reveal(Seq::filter);
            }
            assert(w.skip(0) =~= w);
        }
        let mut kept: usize = 0;
        let mut k: usize = 0;
        while k < n
            invariant
                0 <= kept <= k <= n,
                n == w.len(),
                self.power_ups@ == w.take(k as int).filter(|p: PowerUp<B>| keeps(p)) + w.skip(k as int),
                kept == w.take(k as int).filter(|p: PowerUp<B>| keeps(p)).len(),
                self.ball == ball_after(ob, start, expired@, n as int),
                self.effects == effects_after(oe, start, expired@, n as int),
                self.levels == old(self).levels,
                self.state == old(self).state,
                self.level == old(self).level,
                self.lives == old(self).lives,
                self.keys == old(self).keys,
                self.keys_processed == old(self).keys_processed,
            decreases n - k,
        {
            let ghost prefix = w.take(k as int).filter(|p: PowerUp<B>| keeps(p));
            assert(w.take(k + 1).drop_last() =~= w.take(k as int));
            assert(self.power_ups@[kept as int] == w[k as int]);
            if self.power_ups[kept].destroyed && !self.power_ups[kept].activated {
                assert(w.take(k + 1).filter(|p: PowerUp<B>| keeps(p)) == prefix) by {
                    reveal(Seq::filter);
                }
                self.power_ups.remove(kept);
                assert(self.power_ups@ =~= prefix + w.skip(k + 1));
            } else {
                assert(w.take(k + 1).filter(|p: PowerUp<B>| keeps(p)) == prefix.push(w[k as int])) by {
                    reveal(Seq::filter);
                }
                assert(self.power_ups@ =~= prefix.push(w[k as int]) + w.skip(k + 1));
                kept = kept + 1;
            }
            k = k + 1;
        }
        assert(w.take(n as int) =~= w);
        assert(w.skip(n as int) =~= Seq::<PowerUp<B>>::empty());
        assert(self.power_ups@ =~= w.filter(|p: PowerUp<B>| keeps(p)));
        proof {
            assert forall|i: int| 0 <= i < self.power_ups@.len() implies keeps(#[trigger] self.power_ups@[i]) by {
                w.lemma_filter_pred(|p: PowerUp<B>| keeps(p), i);
            }
        }
        resets
    }

    /// The ball fell off the bottom: one life is lost. Returns whether none are left.
    pub fn lose_life(&mut self) -> (game_over: bool)
        requires
            old(self).lives > 0,
        ensures
            final(self).lives == old(self).lives - 1,
            game_over == (final(self).lives == 0),
            final(self).state == old(self).state,
            final(self).level == old(self).level,
            final(self).levels == old(self).levels,
            final(self).ball == old(self).ball,
            final(self).effects == old(self).effects,
            final(self).power_ups == old(self).power_ups,
            final(self).width == old(self).width,
            final(self).height == old(self).height,
            final(self).keys == old(self).keys,
            final(self).keys_processed == old(self).keys_processed,
    {
        self.lives = self.lives - 1;
        self.lives == 0
    }

    /// The ball fell off the bottom: one life is lost; when that was the last one, the
    /// current level is reloaded from the lines of its file (`lines`, read only then) and the
    /// game returns to the menu with three lives; either way the ball goes back on the paddle
    /// without power-ups and chaos and confuse turn off. Returns whether the game was lost.
    pub fn ball_lost(&mut self, lines: &Vec<String>, resources: &ResourceManager) -> (game_over: bool)
        requires
            old(self).lives > 0,
            old(self).ball is Some,
            old(self).effects is Some,
            resources.wf(),
            old(self).lives == 1 && old(self).level < 4 ==> old(self).level < old(self).levels@.len()
                && can_build(level_tiles(lines@), *resources),
        ensures
            game_over == (old(self).lives == 1),
            game_over ==> {
                &&& level_reloaded(*old(self), *final(self), lines@, *resources)
                &&& final(self).lives == 3
                &&& final(self).state == GameState::Menu
            },
            !game_over ==> {
                &&& final(self).lives == old(self).lives - 1
                &&& final(self).state == old(self).state
                &&& final(self).levels == old(self).levels
            },
            1 <= old(self).lives <= 3 ==> 1 <= final(self).lives <= 3,
            final(self).ball == Some(BallObject { stuck: true, sticky: false, pass_through: false }),
            final(self).effects == Some(PostProcessor { chaos: false, confuse: false, ..old(self).effects->0 }),
            final(self).level == old(self).level,
            final(self).power_ups == old(self).power_ups,
            final(self).width == old(self).width,
            final(self).height == old(self).height,
    {
        let over = self.lose_life();
        if over {
            self.game_over(lines, resources);
        }
        self.reset_player();
        over
    }

    /// Reloads the current level (one of the four) from the lines of its file, into the
    /// upper half of the screen, and restores three lives.
    pub fn reset_level(&mut self, lines: &Vec<String>, resources: &ResourceManager)
        requires
            resources.wf(),
            old(self).level < 4 ==> old(self).level < old(self).levels@.len() && can_build(
                level_tiles(lines@),
                *resources,
            ),
        ensures
            level_reloaded(*old(self), *final(self), lines@, *resources),
            final(self).lives == 3,
            final(self).state == old(self).state,
            final(self).level == old(self).level,
            final(self).width == old(self).width,
            final(self).height == old(self).height,
            final(self).ball == old(self).ball,
            final(self).effects == old(self).effects,
            final(self).power_ups == old(self).power_ups,
            final(self).keys == old(self).keys,
            final(self).keys_processed == old(self).keys_processed,
    {
        if self.level < 4 {
            let idx = self.level as usize;
            let w = self.width;
            let h = self.height / 2;
            let ghost before = self.levels@;
            let mut level = self.levels.remove(idx);
            level.load(lines, w, h, resources);
            self.levels.insert(idx, level);
            assert forall|i: int| 0 <= i < before.len() && i != idx implies #[trigger] self.levels@[i] == before[i] by {
                if i < idx {
                } else {
                }
            }
        }
        self.lives = 3;
    }

    /// Puts the ball back on the paddle without power-ups and turns chaos and confuse off.
    pub fn reset_player(&mut self)
        requires
            old(self).ball is Some,
            old(self).effects is Some,
        ensures
            final(self).ball == Some(BallObject { stuck: true, sticky: false, pass_through: false }),
            final(self).effects == Some(PostProcessor { chaos: false, confuse: false, ..old(self).effects->0 }),
            final(self).state == old(self).state,
            final(self).level == old(self).level,
            final(self).lives == old(self).lives,
            final(self).levels == old(self).levels,
            final(self).power_ups == old(self).power_ups,
            final(self).keys == old(self).keys,
            final(self).keys_processed == old(self).keys_processed,
            final(self).width == old(self).width,
            final(self).height == old(self).height,
    {
        let mut effects = self.effects.unwrap();
        effects.chaos = false;
        effects.confuse = false;
        self.effects = Some(effects);
        let mut ball = self.ball.unwrap();
        ball.reset();
        ball.pass_through = false;
        ball.sticky = false;
        self.ball = Some(ball);
    }

    /// No lives are left: the level is reloaded and the game returns to the menu.
    pub fn game_over(&mut self, lines: &Vec<String>, resources: &ResourceManager)
        requires
            resources.wf(),
            old(self).level < 4 ==> old(self).level < old(self).levels@.len() && can_build(
                level_tiles(lines@),
                *resources,
            ),
        ensures
            level_reloaded(*old(self), *final(self), lines@, *resources),
            final(self).lives == 3,
            final(self).state == GameState::Menu,
            final(self).level == old(self).level,
            final(self).ball == old(self).ball,
            final(self).effects == old(self).effects,
            final(self).power_ups == old(self).power_ups,
            final(self).width == old(self).width,
            final(self).height == old(self).height,
    {
        self.reset_level(lines, resources);
        self.state = GameState::Menu;
    }

    /// The game is being played and every breakable brick of the current level is destroyed.
    pub fn is_level_won(&self) -> (r: bool)
        requires
            self.state == GameState::Active ==> self.level < self.levels@.len(),
        ensures
            r == (self.state == GameState::Active && forall|i: int|
                0 <= i < self.levels@[self.level as int].bricks@.len() ==> #[trigger] self.levels@[self.level as int].bricks@[i].is_solid
                    || self.levels@[self.level as int].bricks@[i].destroyed),
    {
        self.state == GameState::Active && self.levels[self.level as usize].is_completed()
    }

    /// The level is won: it is reloaded, the ball goes back on the paddle, chaos turns on and
    /// the win screen shows.
    pub fn win_level(&mut self, lines: &Vec<String>, resources: &ResourceManager)
        requires
            resources.wf(),
            old(self).level < 4 ==> old(self).level < old(self).levels@.len() && can_build(
                level_tiles(lines@),
                *resources,
            ),
            old(self).ball is Some,
            old(self).effects is Some,
        ensures
            level_reloaded(*old(self), *final(self), lines@, *resources),
            final(self).lives == 3,
            final(self).state == GameState::Win,
            final(self).level == old(self).level,
            final(self).ball == Some(BallObject { stuck: true, sticky: false, pass_through: false }),
            final(self).effects == Some(PostProcessor { chaos: true, confuse: false, ..old(self).effects->0 }),
            final(self).power_ups == old(self).power_ups,
    {
        self.reset_level(lines, resources);
        self.reset_player();
        let mut effects = self.effects.unwrap();
        effects.chaos = true;
        self.effects = Some(effects);
        self.state = GameState::Win;
    }
}

} // verus!

use learnopengl::game::{
    level_file, level_paths, reset_level_path, BallObject, Direction, Game, GameKey, GameState, PaddleMoves,
    PowerUpResets,
};
use learnopengl::game_level::GameLevel;
use learnopengl::post_processor::PostProcessor;
use learnopengl::power_up::{PowerUp, PowerUpKind};
use learnopengl::resource_manager::{load_texture, ResourceManager};
use learnopengl::shader::Shader;
use learnopengl::texture::Texture2D;

const ENTER: usize = 257;
const KEY_W: usize = 87;
const KEY_S: usize = 83;
const KEY_A: usize = 65;
const KEY_D: usize = 68;
const SPACE: usize = 32;

fn effects() -> PostProcessor {
    PostProcessor::new(Shader::new(), Texture2D::new(1), 800, 600, 2, 3, 4, 5)
}

fn resources() -> ResourceManager {
    let mut r = ResourceManager::new();
    load_texture(&mut r, Texture2D::new(7), "block_solid".to_string());
    load_texture(&mut r, Texture2D::new(8), "block".to_string());
    r
}

fn level_lines(text: &[&str]) -> Vec<String> {
    text.iter().map(|l| l.to_string()).collect()
}

fn level_from(text: &[&str]) -> GameLevel {
    let mut level = GameLevel::new();
    level.load(&level_lines(text), 800, 300, &resources());
    level
}

fn playing_game() -> Game<u8> {
    let mut g: Game<u8> = Game::new(800, 600);
    let levels = vec![level_from(&["1 2 2"]), level_from(&["2"]), level_from(&["3"]), level_from(&["4"])];
    g.init(levels, effects());
    g.state = GameState::Active;
    g
}

#[test]
fn key_codes_are_glfw_codes() {
    assert_eq!(GameKey::Enter.code(), ENTER);
    assert_eq!(GameKey::W.code(), KEY_W);
    assert_eq!(GameKey::S.code(), KEY_S);
    assert_eq!(GameKey::A.code(), KEY_A);
    assert_eq!(GameKey::D.code(), KEY_D);
    assert_eq!(GameKey::Space.code(), SPACE);
}

#[test]
fn direction_indices_round_trip() {
    for d in [Direction::Up, Direction::Right, Direction::Down, Direction::Left] {
        assert_eq!(Direction::from_index(d.index() as isize), Some(d));
    }
    assert_eq!(Direction::Left.index(), 3);
    assert_eq!(Direction::from_index(4), None);
    assert_eq!(Direction::from_index(-1), None);
}

#[test]
fn new_game_starts_in_menu_with_three_lives() {
    let g: Game<u8> = Game::new(800, 600);
    assert_eq!(g.state, GameState::Menu);
    assert_eq!(g.lives, 3);
    assert_eq!(g.level, 0);
    assert_eq!(g.keys.len(), 1024);
    assert!(g.keys.iter().all(|k| !k));
    assert!(g.keys_processed.iter().all(|k| !k));
    assert!(g.ball.is_none());
    assert!(g.effects.is_none());
}

#[test]
fn init_takes_levels_and_fresh_ball() {
    let mut g: Game<u8> = Game::new(800, 600);
    g.level = 2;
    g.init(vec![GameLevel::new(), GameLevel::new()], effects());
    assert_eq!(g.levels.len(), 2);
    assert_eq!(g.level, 0);
    assert_eq!(g.ball, Some(BallObject { stuck: true, sticky: false, pass_through: false }));
    assert_eq!(g.effects, Some(effects()));
}

#[test]
fn menu_w_and_s_cycle_levels_once_per_press() {
    let mut g: Game<u8> = Game::new(800, 600);
    g.keys[KEY_W] = true;
    g.process_input();
    assert_eq!(g.level, 1);
    assert!(g.keys_processed[KEY_W]);
    g.process_input();
    assert_eq!(g.level, 1);
    g.keys[KEY_W] = false;
    g.keys_processed[KEY_W] = false;
    g.keys[KEY_S] = true;
    g.process_input();
    assert_eq!(g.level, 0);
    g.keys_processed[KEY_S] = false;
    g.process_input();
    assert_eq!(g.level, 3);
    g.keys[KEY_S] = false;
    g.keys[KEY_W] = true;
    g.process_input();
    assert_eq!(g.level, 0);
    assert_eq!(g.state, GameState::Menu);
}

#[test]
fn menu_w_and_s_together_cancel() {
    let mut g: Game<u8> = Game::new(800, 600);
    g.level = 2;
    g.keys[KEY_W] = true;
    g.keys[KEY_S] = true;
    g.process_input();
    assert_eq!(g.level, 2);
}

#[test]
fn enter_starts_game_and_paddle_moves_same_frame() {
    let mut g: Game<u8> = Game::new(800, 600);
    g.init(vec![GameLevel::new()], effects());
    g.keys[ENTER] = true;
    g.keys[KEY_A] = true;
    let moves = g.process_input();
    assert_eq!(g.state, GameState::Active);
    assert!(g.keys_processed[ENTER]);
    assert_eq!(moves, PaddleMoves { left: true, right: false, carry_ball: true });
}

#[test]
fn menu_without_enter_does_not_move_paddle() {
    let mut g: Game<u8> = Game::new(800, 600);
    g.init(vec![GameLevel::new()], effects());
    g.keys[KEY_D] = true;
    let moves = g.process_input();
    assert_eq!(moves, PaddleMoves { left: false, right: false, carry_ball: false });
    assert_eq!(g.state, GameState::Menu);
}

#[test]
fn active_keys_move_paddle_and_release_ball() {
    let mut g = playing_game();
    g.keys[KEY_D] = true;
    let moves = g.process_input();
    assert_eq!(moves, PaddleMoves { left: false, right: true, carry_ball: true });
    g.keys[SPACE] = true;
    let moves = g.process_input();
    assert_eq!(moves, PaddleMoves { left: false, right: true, carry_ball: true });
    assert!(!g.ball.unwrap().stuck);
    let moves = g.process_input();
    assert_eq!(moves, PaddleMoves { left: false, right: true, carry_ball: false });
}

#[test]
fn win_screen_enter_returns_to_menu_with_chaos() {
    let mut g = playing_game();
    g.state = GameState::Win;
    g.process_input();
    assert_eq!(g.state, GameState::Win);
    g.keys[ENTER] = true;
    g.keys_processed[ENTER] = true;
    g.process_input();
    assert_eq!(g.state, GameState::Menu);
    assert!(g.effects.unwrap().chaos);
    assert!(g.keys_processed[ENTER]);
}

#[test]
fn hitting_bricks() {
    let mut g = playing_game();
    assert!(!g.hit_brick(0));
    assert!(g.effects.unwrap().shake);
    assert!(!g.levels[0].bricks[0].destroyed);
    assert!(g.hit_brick(1));
    assert!(g.levels[0].bricks[1].destroyed);
    assert!(!g.is_level_won());
    assert!(g.hit_brick(2));
    assert!(g.is_level_won());
    g.state = GameState::Menu;
    assert!(!g.is_level_won());
}

#[test]
fn pass_through_ball_does_not_bounce_off_breakable_bricks() {
    let mut g = playing_game();
    assert!(g.resolves_brick_collision(1));
    g.ball = Some(BallObject { stuck: false, sticky: false, pass_through: true });
    assert!(!g.resolves_brick_collision(1));
    assert!(g.resolves_brick_collision(0));
}

#[test]
fn sticky_ball_sticks_to_paddle() {
    let mut g = playing_game();
    g.ball = Some(BallObject { stuck: false, sticky: false, pass_through: false });
    g.paddle_bounce();
    assert!(!g.ball.unwrap().stuck);
    g.ball = Some(BallObject { stuck: false, sticky: true, pass_through: false });
    g.paddle_bounce();
    assert!(g.ball.unwrap().stuck);
}

#[test]
fn collecting_and_activating_power_ups() {
    let mut g = playing_game();
    g.power_ups.push(PowerUp::new("sticky".to_string(), 1));
    g.power_ups.push(PowerUp::new("confuse".to_string(), 2));
    g.power_ups.push(PowerUp::new("chaos".to_string(), 3));
    g.power_ups.push(PowerUp::new("unknown".to_string(), 4));
    g.collect_power_up(0);
    assert!(g.power_ups[0].destroyed && g.power_ups[0].activated);
    assert!(!g.power_ups[1].destroyed);
    assert_eq!(g.activate_power_up(0), Some(PowerUpKind::Sticky));
    assert!(g.ball.unwrap().sticky);
    assert_eq!(g.activate_power_up(1), Some(PowerUpKind::Confuse));
    assert!(g.effects.unwrap().confuse);
    assert_eq!(g.activate_power_up(2), Some(PowerUpKind::Chaos));
    assert!(!g.effects.unwrap().chaos);
    assert_eq!(g.activate_power_up(3), None);
}

#[test]
fn chaos_first_blocks_confuse() {
    let mut g = playing_game();
    g.power_ups.push(PowerUp::new("chaos".to_string(), 1));
    g.power_ups.push(PowerUp::new("confuse".to_string(), 2));
    assert_eq!(g.activate_power_up(0), Some(PowerUpKind::Chaos));
    assert_eq!(g.activate_power_up(1), Some(PowerUpKind::Confuse));
    let e = g.effects.unwrap();
    assert!(e.chaos && !e.confuse);
}

#[test]
fn pass_through_and_speed_power_ups() {
    let mut g = playing_game();
    g.power_ups.push(PowerUp::new("pass-through".to_string(), 1));
    g.power_ups.push(PowerUp::new("speed".to_string(), 2));
    g.power_ups.push(PowerUp::new("pad-size-increase".to_string(), 3));
    assert_eq!(g.activate_power_up(0), Some(PowerUpKind::PassThrough));
    assert!(g.ball.unwrap().pass_through);
    assert_eq!(g.activate_power_up(1), Some(PowerUpKind::Speed));
    assert_eq!(g.activate_power_up(2), Some(PowerUpKind::PadSizeIncrease));
    assert_eq!(g.ball.unwrap(), BallObject { stuck: true, sticky: false, pass_through: true });
}

#[test]
fn expired_power_ups_are_removed_and_effects_undone() {
    let mut g = playing_game();
    let mut p0 = PowerUp::new("sticky".to_string(), 10u8);
    p0.activated = true;
    p0.destroyed = true;
    let mut p1 = PowerUp::new("speed".to_string(), 11u8);
    p1.destroyed = true;
    let p2 = PowerUp::new("chaos".to_string(), 12u8);
    g.power_ups = vec![p0, p1, p2];
    g.ball = Some(BallObject { stuck: false, sticky: true, pass_through: false });
    let resets = g.update_power_ups(&vec![true, false, false]);
    assert_eq!(resets, PowerUpResets { player_color: true, ball_color: false });
    let bodies: Vec<u8> = g.power_ups.iter().map(|p| p.body).collect();
    assert_eq!(bodies, vec![12]);
    assert!(!g.ball.unwrap().sticky);
}

#[test]
fn effect_stays_while_another_of_its_type_is_active() {
    let mut g = playing_game();
    let mut a = PowerUp::new("pass-through".to_string(), 1u8);
    a.activated = true;
    a.destroyed = true;
    let mut b = PowerUp::new("pass-through".to_string(), 2u8);
    b.activated = true;
    b.destroyed = true;
    g.power_ups = vec![a, b];
    g.ball = Some(BallObject { stuck: false, sticky: false, pass_through: true });
    let resets = g.update_power_ups(&vec![true, false]);
    assert_eq!(resets, PowerUpResets { player_color: false, ball_color: false });
    assert!(g.ball.unwrap().pass_through);
    assert_eq!(g.power_ups.len(), 1);
    let resets = g.update_power_ups(&vec![true]);
    assert_eq!(resets, PowerUpResets { player_color: false, ball_color: true });
    assert!(!g.ball.unwrap().pass_through);
    assert!(g.power_ups.is_empty());
}

#[test]
fn two_expiring_at_once_undo_the_effect() {
    let mut g = playing_game();
    let mut a = PowerUp::new("confuse".to_string(), 1u8);
    a.activated = true;
    let mut b = PowerUp::new("confuse".to_string(), 2u8);
    b.activated = true;
    g.power_ups = vec![a, b];
    let mut e = effects();
    e.confuse = true;
    g.effects = Some(e);
    g.update_power_ups(&vec![true, true]);
    assert!(!g.effects.unwrap().confuse);
    assert_eq!(g.power_ups.len(), 2);
}

#[test]
fn active_power_ups_that_have_not_expired_stay() {
    let mut g = playing_game();
    let mut p0 = PowerUp::new("confuse".to_string(), 1u8);
    p0.activated = true;
    p0.destroyed = true;
    g.power_ups = vec![p0];
    g.update_power_ups(&vec![false]);
    assert_eq!(g.power_ups.len(), 1);
    assert!(g.power_ups[0].activated);
}

#[test]
fn losing_lives() {
    let mut g = playing_game();
    assert!(!g.lose_life());
    assert!(!g.lose_life());
    assert!(g.lose_life());
    assert_eq!(g.lives, 0);
}

#[test]
fn reset_level_reloads_current_level() {
    let mut g = playing_game();
    g.level = 1;
    g.lives = 1;
    g.hit_brick(0);
    assert!(g.levels[1].bricks[0].destroyed);
    g.reset_level(&level_lines(&["1 2", "3 0"]), &resources());
    assert_eq!(g.lives, 3);
    assert_eq!(g.levels[1].bricks.len(), 3);
    assert!(!g.levels[1].bricks[1].destroyed);
    assert_eq!(g.levels[1].level_width, 800);
    assert_eq!(g.levels[1].level_height, 300);
    assert_eq!(g.levels[0].bricks.len(), 3);
}

#[test]
fn game_over_returns_to_menu() {
    let mut g = playing_game();
    g.lives = 0;
    g.game_over(&level_lines(&["2"]), &resources());
    assert_eq!(g.state, GameState::Menu);
    assert_eq!(g.lives, 3);
    assert_eq!(g.levels[0].bricks.len(), 1);
}

#[test]
fn winning_a_level() {
    let mut g = playing_game();
    g.ball = Some(BallObject { stuck: false, sticky: true, pass_through: true });
    let mut e = effects();
    e.confuse = true;
    g.effects = Some(e);
    g.win_level(&level_lines(&["1 2 2"]), &resources());
    assert_eq!(g.state, GameState::Win);
    assert_eq!(g.ball, Some(BallObject { stuck: true, sticky: false, pass_through: false }));
    let e = g.effects.unwrap();
    assert!(e.chaos && !e.confuse);
    assert_eq!(g.lives, 3);
}

#[test]
fn reset_player_turns_effects_off() {
    let mut g = playing_game();
    let mut e = effects();
    e.chaos = true;
    e.shake = true;
    g.effects = Some(e);
    g.ball = Some(BallObject { stuck: false, sticky: true, pass_through: true });
    g.reset_player();
    let e = g.effects.unwrap();
    assert!(!e.chaos && !e.confuse && e.shake);
    assert_eq!(g.ball, Some(BallObject::new()));
}

#[test]
fn ball_reset_clears_power_ups() {
    let mut b = BallObject { stuck: false, sticky: true, pass_through: true };
    b.reset();
    assert_eq!(b, BallObject::new());
}

#[test]
fn level_file_paths() {
    assert_eq!(
        level_paths(""),
        vec![
            "../../../resources/levels/one.lvl".to_string(),
            "../../../resources/levels/two.lvl".to_string(),
            "../../../resources/levels/three.lvl".to_string(),
            "../../../resources/levels/four.lvl".to_string(),
        ]
    );
    assert_eq!(level_paths("/r")[3], "/r/resources/levels/four.lvl");
    assert_eq!(level_file(2), "three.lvl");
    assert_eq!(reset_level_path(0), Some("levels/one.lvl".to_string()));
    assert_eq!(reset_level_path(3), Some("levels/four.lvl".to_string()));
    assert_eq!(reset_level_path(4), None);
}

#[test]
fn losing_the_ball_costs_a_life_and_resets_the_player() {
    let mut g = playing_game();
    g.ball = Some(BallObject { stuck: false, sticky: true, pass_through: true });
    let mut e = effects();
    e.chaos = true;
    g.effects = Some(e);
    assert!(!g.ball_lost(&Vec::new(), &resources()));
    assert_eq!(g.lives, 2);
    assert_eq!(g.state, GameState::Active);
    assert_eq!(g.ball, Some(BallObject::new()));
    assert!(!g.effects.unwrap().chaos);
}

#[test]
fn losing_the_last_ball_ends_the_game() {
    let mut g = playing_game();
    g.lives = 1;
    g.hit_brick(1);
    assert!(g.ball_lost(&level_lines(&["1 2 2"]), &resources()));
    assert_eq!(g.lives, 3);
    assert_eq!(g.state, GameState::Menu);
    assert!(!g.levels[0].bricks[1].destroyed);
    assert_eq!(g.ball, Some(BallObject::new()));
}

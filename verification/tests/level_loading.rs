use learnopengl::game_level::GameLevel;
use learnopengl::level_format::{char_is_whitespace, line_chars, parse_piece, parse_row, parse_tile_data};
use learnopengl::resource_manager::{load_texture, ResourceManager};
use learnopengl::texture::Texture2D;

fn lines(text: &[&str]) -> Vec<String> {
    text.iter().map(|l| l.to_string()).collect()
}

fn resources_with_blocks() -> ResourceManager {
    let mut resources = ResourceManager::new();
    load_texture(&mut resources, Texture2D::new(7), "block_solid".to_string());
    load_texture(&mut resources, Texture2D::new(8), "block".to_string());
    resources
}

#[test]
fn parse_row_reads_space_separated_codes() {
    assert_eq!(parse_row(&"1 1 1 1 1 1".to_string()), vec![1, 1, 1, 1, 1, 1]);
    assert_eq!(parse_row(&"2 2 0 0 2 2".to_string()), vec![2, 2, 0, 0, 2, 2]);
    assert_eq!(parse_row(&"10 25 4294967295".to_string()), vec![10, 25, 4294967295]);
}

#[test]
fn parse_row_skips_pieces_that_are_not_numbers() {
    assert_eq!(parse_row(&"1 x 3".to_string()), vec![1, 3]);
    assert_eq!(parse_row(&"1  3".to_string()), vec![1, 3]);
    assert_eq!(parse_row(&"-1 2 +3 +".to_string()), vec![2, 3]);
    assert_eq!(parse_row(&"4294967296 5".to_string()), vec![5]);
    assert_eq!(parse_row(&"".to_string()), Vec::<u32>::new());
}

#[test]
fn parse_row_trims_each_piece() {
    assert_eq!(parse_row(&"1\t 2\r".to_string()), vec![1, 2]);
    assert_eq!(parse_row(&"3\r".to_string()), vec![3]);
    assert_eq!(parse_row(&"\t4 5\u{a0}".to_string()), vec![4, 5]);
}

#[test]
fn parse_piece_reads_a_trimmed_number() {
    let chars: Vec<char> = " 42 x".chars().collect();
    assert_eq!(parse_piece(&chars, 0, 4), Some(42));
    assert_eq!(parse_piece(&chars, 0, 5), None);
    assert_eq!(parse_piece(&chars, 0, 0), None);
}

#[test]
fn line_chars_and_whitespace() {
    assert_eq!(line_chars(&"a b".to_string()), vec!['a', ' ', 'b']);
    assert!(char_is_whitespace(' '));
    assert!(char_is_whitespace('\u{3000}'));
    assert!(!char_is_whitespace('0'));
}

#[test]
fn parse_tile_data_gives_one_row_per_line() {
    let data = parse_tile_data(&lines(&["1 2", "0 3 4", ""]));
    assert_eq!(data, vec![vec![1, 2], vec![0, 3, 4], vec![]]);
}

#[test]
fn load_builds_bricks_in_row_major_order() {
    let resources = resources_with_blocks();
    let mut level = GameLevel::new();
    level.load(&lines(&["1 0 2", "0 3 1"]), 800, 300, &resources);
    assert_eq!(level.columns, 3);
    assert_eq!(level.rows, 2);
    assert_eq!(level.level_width, 800);
    assert_eq!(level.level_height, 300);
    let shape: Vec<(usize, usize, u32, bool)> =
        level.bricks.iter().map(|b| (b.col, b.row, b.code, b.is_solid)).collect();
    assert_eq!(shape, vec![(0, 0, 1, true), (2, 0, 2, false), (1, 1, 3, false), (2, 1, 1, true)]);
    assert!(level.bricks.iter().all(|b| !b.destroyed));
    assert_eq!(level.bricks[0].sprite.id, 7);
    assert_eq!(level.bricks[1].sprite.id, 8);
}

#[test]
fn load_replaces_old_bricks_and_empty_file_clears() {
    let resources = resources_with_blocks();
    let mut level = GameLevel::new();
    level.load(&lines(&["1 1"]), 10, 10, &resources);
    assert_eq!(level.bricks.len(), 2);
    level.load(&lines(&["2"]), 10, 10, &resources);
    assert_eq!(level.bricks.len(), 1);
    assert_eq!(level.bricks[0].code, 2);
    level.load(&Vec::new(), 20, 20, &resources);
    assert!(level.bricks.is_empty());
    assert_eq!(level.level_width, 10);
}

#[test]
fn load_uses_width_of_first_row() {
    let resources = resources_with_blocks();
    let mut level = GameLevel::new();
    level.load(&lines(&["1", "2 3"]), 10, 10, &resources);
    assert_eq!(level.columns, 1);
    let codes: Vec<u32> = level.bricks.iter().map(|b| b.code).collect();
    assert_eq!(codes, vec![1, 2]);
}

#[test]
fn level_completed_when_breakable_bricks_destroyed() {
    let resources = resources_with_blocks();
    let mut level = GameLevel::new();
    assert!(level.is_completed());
    level.load(&lines(&["1 2 2"]), 10, 10, &resources);
    assert!(!level.is_completed());
    level.bricks[1].destroyed = true;
    assert!(!level.is_completed());
    level.bricks[2].destroyed = true;
    assert!(level.is_completed());
}

#[test]
fn written_rows_read_back() {
    for codes in [vec![], vec![0u32], vec![1, 0, 25, 4294967295, 7], vec![3, 3, 3]] {
        let line = codes.iter().map(|c| c.to_string()).collect::<Vec<_>>().join(" ");
        assert_eq!(parse_row(&line), codes);
    }
}

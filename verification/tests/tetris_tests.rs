use braille_suite::input::{KeyCode, KeyState, Language};
use braille_suite::tetris::{BlockType, GameState, Tetris, TetrisEffect, TetrisSound, Tetromino};
use braille_suite::tetris_draw::PinLevel;

#[test]
fn new_game_has_board_queue_and_piece() {
    let t = Tetris::new();
    assert_eq!(t.logical_height, 20);
    assert_eq!(t.logical_width, 4);
    assert_eq!(t.board.len(), 20);
    assert!(t.board.iter().all(|r| r.len() == 4 && r.iter().all(|c| c.is_none())));
    assert_eq!(t.next_pieces.len(), 6);
    let p = t.current_piece.unwrap();
    assert_eq!(p.x, -4);
    assert_eq!(p.y, 1);
    assert_eq!(p.rotation, 0);
    assert_eq!(t.state, GameState::Ready);
    assert_eq!(t.level, 1);
    assert_eq!(t.gravity_frames, 28);
    assert_eq!(t.target_fps(), 30);
}

#[test]
fn first_bag_holds_each_shape_once() {
    let t = Tetris::new();
    let mut all: Vec<BlockType> = t.next_pieces.clone();
    all.push(t.current_piece.unwrap().block_type);
    for b in [BlockType::I, BlockType::J, BlockType::L, BlockType::O, BlockType::S, BlockType::T, BlockType::Z] {
        assert_eq!(all.iter().filter(|x| **x == b).count(), 1);
    }
}

#[test]
fn refill_adds_a_full_bag() {
    let mut t = Tetris::new();
    t.next_pieces.clear();
    t.fill_piece_queue();
    t.fill_piece_queue();
    assert_eq!(t.next_pieces.len(), 14);
    for b in [BlockType::I, BlockType::J, BlockType::L, BlockType::O, BlockType::S, BlockType::T, BlockType::Z] {
        assert_eq!(t.next_pieces[..7].iter().filter(|x| **x == b).count(), 1);
        assert_eq!(t.next_pieces[7..].iter().filter(|x| **x == b).count(), 1);
    }
}

#[test]
fn piece_cells_follow_the_table() {
    let p = Tetromino::new(BlockType::I, 10);
    assert_eq!(p.y, 4);
    assert_eq!(p.get_cells(), [(0, 1), (1, 1), (2, 1), (3, 1)]);
    let r = Tetromino { block_type: BlockType::T, x: 0, y: 0, rotation: 5 };
    assert_eq!(r.get_cells(), [(1, 0), (1, 1), (2, 1), (1, 2)]);
    let o = Tetromino { block_type: BlockType::O, x: 0, y: 0, rotation: 3 };
    assert_eq!(o.get_cells(), [(1, 0), (2, 0), (1, 1), (2, 1)]);
    assert_eq!(BlockType::from_index(6), BlockType::Z);
}

#[test]
fn full_rows_are_cleared_and_empty_rows_added() {
    let mut t = Tetris::new();
    t.board[19] = vec![Some(BlockType::I); 4];
    t.board[18] = vec![Some(BlockType::O), None, Some(BlockType::O), Some(BlockType::O)];
    t.board[17] = vec![Some(BlockType::T); 4];
    let n = t.clear_lines();
    assert_eq!(n, 2);
    assert_eq!(t.board.len(), 20);
    assert_eq!(t.board[19], vec![Some(BlockType::O), None, Some(BlockType::O), Some(BlockType::O)]);
    assert!(t.board[0].iter().all(|c| c.is_none()));
    assert!(t.board[1].iter().all(|c| c.is_none()));
    assert!(t.board.iter().all(|r| r.iter().any(|c| c.is_none())));
}

#[test]
fn valid_positions_and_drop_distance() {
    let t = Tetris::new();
    let p = Tetromino { block_type: BlockType::O, x: 0, y: 0, rotation: 0 };
    assert!(t.is_valid_position(&p));
    assert_eq!(t.calculate_drop_distance(&p), 17);
    let off = Tetromino { block_type: BlockType::O, x: 0, y: 3, rotation: 0 };
    assert!(!t.is_valid_position(&off));
    let left = Tetromino { block_type: BlockType::O, x: -3, y: 0, rotation: 0 };
    assert!(t.is_valid_position(&left));
    let past = Tetromino { block_type: BlockType::I, x: 17, y: 0, rotation: 0 };
    assert!(!t.is_valid_position(&past));
}

#[test]
fn hard_drop_locks_and_scores_a_row() {
    let mut t = Tetris::new();
    t.board[19] = vec![Some(BlockType::J), Some(BlockType::J), None, Some(BlockType::J)];
    t.current_piece = Some(Tetromino { block_type: BlockType::I, x: 0, y: 1, rotation: 0 });
    let mut fx = Vec::new();
    let quit = t.process_move(KeyCode::Center, &mut fx);
    assert!(!quit);
    assert_eq!(fx[0], TetrisEffect::Play(TetrisSound::Drop));
    assert_eq!(fx[1], TetrisEffect::Play(TetrisSound::LineClear));
    assert_eq!(t.score, 80);
    assert_eq!(t.total_lines, 1);
    assert_eq!(t.level, 1);
}

#[test]
fn piece_sticking_out_ends_the_game() {
    let mut t = Tetris::new();
    t.state = GameState::Playing;
    t.current_piece = Some(Tetromino { block_type: BlockType::O, x: -2, y: 0, rotation: 0 });
    let mut fx = Vec::new();
    t.lock_current_piece(&mut fx);
    assert_eq!(t.state, GameState::GameOver);
    assert!(t.current_piece.is_none());
    assert_eq!(fx, vec![TetrisEffect::Play(TetrisSound::GameOver), TetrisEffect::Announce(GameState::GameOver)]);
}

#[test]
fn pause_resume_and_restart() {
    let mut t = Tetris::new();
    let mut fx = Vec::new();
    t.start_game(60, 20, &mut fx);
    assert_eq!(t.state, GameState::Playing);
    t.handle_key_event(KeyCode::Down, KeyState::Pressed, &mut fx);
    assert_eq!(t.active_key, Some(KeyCode::Down));
    fx.clear();
    t.handle_key_event(KeyCode::Function, KeyState::Pressed, &mut fx);
    assert_eq!(t.state, GameState::Stop);
    assert_eq!(t.active_key, None);
    assert_eq!(fx, vec![TetrisEffect::Announce(GameState::Stop)]);
    fx.clear();
    t.handle_key_event(KeyCode::Up, KeyState::Pressed, &mut fx);
    assert_eq!(fx, vec![TetrisEffect::SayPaused]);
    t.handle_key_event(KeyCode::Function, KeyState::Pressed, &mut fx);
    assert_eq!(t.state, GameState::Playing);
    t.state = GameState::GameOver;
    t.score = 999;
    fx.clear();
    t.handle_key_event(KeyCode::Function, KeyState::Pressed, &mut fx);
    assert_eq!(t.state, GameState::Playing);
    assert_eq!(t.score, 0);
    assert_eq!(fx, vec![TetrisEffect::Announce(GameState::Reset), TetrisEffect::SayRestart]);
    fx.clear();
    assert!(t.handle_key_event(KeyCode::Home, KeyState::Pressed, &mut fx));
    assert!(!t.handle_key_event(KeyCode::Home, KeyState::Released, &mut fx));
    assert!(!t.handle_key_event(KeyCode::Left, KeyState::Pressed, &mut fx));
    t.state = GameState::GameOver;
    assert!(!t.handle_key_event(KeyCode::Home, KeyState::Pressed, &mut fx));
}

#[test]
fn home_leaves_the_game() {
    let mut t = Tetris::new();
    let mut fx = Vec::new();
    assert!(t.process_move(KeyCode::Home, &mut fx));
    assert!(fx.is_empty());
    t.current_piece = Some(Tetromino { block_type: BlockType::T, x: 0, y: 3, rotation: 0 });
    assert!(t.process_move(KeyCode::Home, &mut fx));
    assert!(!t.process_move(KeyCode::Up, &mut fx));
}

#[test]
fn start_resizes_board_to_display() {
    let mut t = Tetris::new();
    let mut fx = Vec::new();
    t.start_game(60, 20, &mut fx);
    assert_eq!(t.logical_height, 24);
    assert_eq!(t.logical_width, 9);
    assert_eq!(t.board.len(), 24);
    assert_eq!(fx, vec![TetrisEffect::Announce(GameState::Playing)]);
    assert!(t.is_consistent());
}

#[test]
fn gravity_moves_the_piece_on_schedule() {
    let mut t = Tetris::new();
    let mut fx = Vec::new();
    t.start_game(60, 20, &mut fx);
    let x0 = t.current_piece.unwrap().x;
    for _ in 0..27 {
        t.advance_frame(&mut fx);
    }
    assert_eq!(t.current_piece.unwrap().x, x0);
    t.advance_frame(&mut fx);
    assert_eq!(t.current_piece.unwrap().x, x0 + 1);
    assert_eq!(t.last_tick_ms, 0);
}

#[test]
fn gravity_table_levels() {
    let mut t = Tetris::new();
    for (level, frames) in [(0u64, 30u64), (1, 28), (10, 15), (18, 2), (19, 1), (100, 1)] {
        t.level = level;
        t.update_gravity_frames();
        assert_eq!(t.gravity_frames, frames);
    }
}

#[test]
fn state_names() {
    assert_eq!(GameState::Stop.gamestate_text(Language::Ko), "일시정지");
    assert_eq!(GameState::GameOver.gamestate_text(Language::En), "Game Over");
    assert_eq!(GameState::Reset.gamestate_text(Language::Ja), "再スタート");
}

#[test]
fn rotation_uses_wall_kicks() {
    let mut t = Tetris::new();
    t.current_piece = Some(Tetromino { block_type: BlockType::I, x: 5, y: 0, rotation: 1 });
    let mut fx = Vec::new();
    t.process_move(KeyCode::Left, &mut fx);
    let p = t.current_piece.unwrap();
    assert_eq!(p.rotation, 2);
    assert_eq!(fx, vec![TetrisEffect::Play(TetrisSound::Rotate)]);
}

#[test]
fn screen_pins_frame_board_and_pieces() {
    let mut t = Tetris::new();
    t.board[19][0] = Some(BlockType::J);
    t.current_piece = Some(Tetromino { block_type: BlockType::O, x: 0, y: 0, rotation: 0 });
    t.next_pieces = vec![BlockType::I];
    // Board 20 by 4 is 40 + 8 + 1 = 49 pins wide and 8 tall; the display is 60 by 12.
    let pins = t.draw_pins(60, 12);
    // Frame from (4, 1) to (54, 10): 51 columns twice, 10 rows twice.
    assert_eq!(pins[0], (4, 1, PinLevel::Full));
    assert_eq!(pins[1], (4, 10, PinLevel::Full));
    let frame = 51 * 2 + 10 * 2;
    assert_eq!(pins[frame - 1], (54, 10, PinLevel::Full));
    // Separator at x = 13 over the frame's rows.
    assert_eq!(pins[frame], (13, 1, PinLevel::Full));
    let sep = 10;
    // The fixed cell at board (19, 0): x = 14 + 38, y = 2.
    assert_eq!(&pins[frame + sep..frame + sep + 4], &[(52, 2, PinLevel::Full), (53, 2, PinLevel::Full), (52, 3, PinLevel::Full), (53, 3, PinLevel::Full)]);
    // Shadow of the O piece: it lands on the fixed cell, 16 cells down.
    let shadow = &pins[frame + sep + 4..frame + sep + 20];
    assert!(shadow.iter().all(|p| p.2 == PinLevel::Shadow));
    assert_eq!(shadow[0], (14 + 17 * 2, 2, PinLevel::Shadow));
    let piece = &pins[frame + sep + 20..frame + sep + 36];
    assert_eq!(piece[0], (16, 2, PinLevel::Full));
    // Next shape I in the panel: its box is 4 by 1 cells.
    let next = &pins[frame + sep + 36..];
    assert_eq!(next.len(), 16);
    assert_eq!(next[0], (5, 5, PinLevel::Full));
}

#[test]
fn pieces_turn_a_quarter_each_step() {
    let i1 = Tetromino { block_type: BlockType::I, x: 0, y: 0, rotation: 1 };
    assert_eq!(i1.get_cells(), [(2, 0), (2, 1), (2, 2), (2, 3)]);
    let i5 = Tetromino { rotation: 5, ..i1 };
    assert_eq!(i5.get_cells(), i1.get_cells());
    for bt in [BlockType::I, BlockType::J, BlockType::L, BlockType::S, BlockType::T, BlockType::Z] {
        let k = if bt == BlockType::I { 3 } else { 2 };
        for r in 0u8..=255 {
            let t = Tetromino { block_type: bt, x: 0, y: 0, rotation: r };
            let t2 = Tetromino { rotation: r.wrapping_add(1), ..t };
            let mut turned: Vec<(i32, i32)> = t.get_cells().iter().map(|&(dx, dy)| (k - dy, dx)).collect();
            let mut next: Vec<(i32, i32)> = t2.get_cells().to_vec();
            turned.sort();
            next.sort();
            assert_eq!(turned, next);
        }
    }
    let t3 = Tetromino { block_type: BlockType::T, x: 0, y: 0, rotation: 3 };
    assert_eq!(t3.get_cells(), [(1, 0), (0, 1), (1, 1), (1, 2)]);
}

#[test]
fn hard_drop_lands_where_the_piece_still_fits() {
    let mut t = Tetris::new();
    t.board[15][2] = Some(BlockType::J);
    for piece in [
        Tetromino { block_type: BlockType::I, x: 0, y: 1, rotation: 0 },
        Tetromino { block_type: BlockType::T, x: 2, y: 1, rotation: 1 },
        Tetromino { block_type: BlockType::O, x: -1, y: 0, rotation: 0 },
    ] {
        let d = t.calculate_drop_distance(&piece);
        assert!(d > 0 && d < 100);
        assert!(t.is_valid_position(&Tetromino { x: piece.x + d, ..piece }));
        assert!(!t.is_valid_position(&Tetromino { x: piece.x + d + 1, ..piece }));
    }
}

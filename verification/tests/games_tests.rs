use braille_suite::cross_memory::{
    keycode_to_direction, CrossEffect, CrossMemory, CrossMessage, Direction, GameMode, GameState, InputResult, Rng,
    SoundAsset, TutorialStep,
};
use braille_suite::find_dot::{blinking_dot_pins, calc_time_limit, FindDot, FindEffect, GameState as FindState, Point};
use braille_suite::input::{KeyCode, KeyState, Language};
use braille_suite::rhythm::{
    circle_diameter, flash_length, select_dots, Judge, RhythmKeyAction, RhythmSession, RhythmState, Tally, VibrationMode,
};
use braille_suite::tactile_game::{Quiz, TactileGame, TgEffect, TgMessage};
use braille_suite::tactile_test::{build_quiz_announcement, pattern_at, GameState as TestState, TactileTest, TtEffect, TtMessage};

use braille_suite::tactile_draw::{
    feedback_screen_pins, over_screen_pins, quiz_box_origin, reset_screen_pins, stop_screen_pins,
    tg_play_pins, tg_quiz_fill, timer_bar_width, tt_play_pins, tt_ready_pins,
};
#[test]
fn modes_cycle() {
    assert_eq!(GameMode::Tutorial.next(), GameMode::Length);
    assert_eq!(GameMode::Speed.next(), GameMode::Tutorial);
    assert_eq!(GameMode::Tutorial.prev(), GameMode::Speed);
    assert_eq!(GameMode::Length.next().prev(), GameMode::Length);
    assert_eq!(GameMode::Length.name(), "길이 증가 모드");
    assert_eq!(Direction::Left.name(), "왼쪽");
    assert_eq!(Direction::Center.sound_bytes(), SoundAsset::Center);
    assert_eq!(keycode_to_direction(KeyCode::Up), Some(Direction::Up));
    assert_eq!(keycode_to_direction(KeyCode::Menu), None);
}

#[test]
fn xorshift_generator() {
    let mut r = Rng::new(2);
    let mut s: u64 = 3;
    s ^= s << 13;
    s ^= s >> 7;
    s ^= s << 17;
    assert_eq!(r.next_u32(), (s >> 16) as u32);
}

#[test]
fn cross_memory_round() {
    let mut g = CrossMemory::new(7);
    let mut fx = Vec::new();
    g.handle_keypad_event(KeyCode::Down, 0, &mut fx);
    assert_eq!(g.mode, GameMode::Length);
    assert_eq!(fx, vec![CrossEffect::Say(CrossMessage::ModeName(GameMode::Length))]);
    fx.clear();
    g.handle_keypad_event(KeyCode::Center, 0, &mut fx);
    assert_eq!(g.state, GameState::Locating);
    g.handle_keypad_event(KeyCode::Center, 100, &mut fx);
    assert_eq!(g.state, GameState::Waiting);
    assert_eq!(g.sequence.len(), 1);
    assert!(g.tick(1599, &mut fx));
    assert_eq!(g.state, GameState::Waiting);
    g.tick(1600, &mut fx);
    assert_eq!(g.state, GameState::Showing);
    fx.clear();
    g.tick(1600, &mut fx);
    let d = g.sequence[0];
    assert_eq!(g.active_square, Some(d));
    assert_eq!(fx, vec![CrossEffect::Play(d.sound_bytes())]);
    g.tick(2100, &mut fx);
    assert_eq!(g.active_square, None);
    g.tick(2350, &mut fx);
    assert_eq!(g.show_index, 1);
    g.tick(2351, &mut fx);
    assert_eq!(g.state, GameState::Input);
    fx.clear();
    let key = match d {
        Direction::Up => KeyCode::Up,
        Direction::Down => KeyCode::Down,
        Direction::Left => KeyCode::Left,
        Direction::Right => KeyCode::Right,
        Direction::Center => KeyCode::Center,
    };
    g.handle_keypad_event(key, 3000, &mut fx);
    assert_eq!(g.score, 1);
    assert_eq!(g.sequence.len(), 2);
    assert_eq!(g.pending_feedback, Some((CrossMessage::RoundSuccess(1), 3600)));
    g.tick(3200, &mut fx);
    assert_eq!(g.state, GameState::Waiting);
    fx.clear();
    g.tick(3600, &mut fx);
    assert_eq!(fx, vec![CrossEffect::Say(CrossMessage::RoundSuccess(1))]);
}

#[test]
fn cross_memory_timeout_and_wrong_key() {
    let mut g = CrossMemory::new(1);
    let mut fx = Vec::new();
    g.mode = GameMode::Speed;
    g.handle_keypad_event(KeyCode::Center, 0, &mut fx);
    g.handle_keypad_event(KeyCode::Center, 0, &mut fx);
    assert_eq!(g.sequence.len(), 5);
    g.state = GameState::Input;
    g.input_start = 0;
    fx.clear();
    g.tick(10_000, &mut fx);
    assert_eq!(g.state, GameState::End);
    assert_eq!(g.end_message, "시간 초과");
    assert_eq!(fx, vec![CrossEffect::Say(CrossMessage::TimeOut(0))]);
    assert_eq!(CrossMessage::TimeOut(3).segments(Language::Ko), vec!["시간 초과. ", "3", "점"]);

    let mut g = CrossMemory::new(1);
    g.sequence = vec![Direction::Up];
    g.state = GameState::Input;
    let r = g.handle_input_key(KeyCode::Down, 50, &mut fx);
    assert_eq!(r, InputResult::Wrong);
    assert_eq!(g.handle_input_key(KeyCode::Menu, 50, &mut fx), InputResult::Ignored);
}

#[test]
fn cross_memory_tutorial_start() {
    let mut g = CrossMemory::new(3);
    let mut fx = Vec::new();
    g.handle_keypad_event(KeyCode::Center, 10, &mut fx);
    assert_eq!(g.state, GameState::Tutorial(TutorialStep::Introduction));
    assert_eq!(fx, vec![CrossEffect::Say(CrossMessage::TutorialIntro)]);
    fx.clear();
    g.tick(9011, &mut fx);
    assert_eq!(g.state, GameState::Tutorial(TutorialStep::IdentifyCross));
    assert_eq!(fx, vec![CrossEffect::Say(CrossMessage::TutorialFindCross)]);
    assert_eq!(CrossMessage::DotGone(Direction::Up).segments(Language::En), vec!["위쪽", " 점이 사라졌습니다. ", "위쪽", " 키를 눌러보세요."]);
}

#[test]
fn find_dot_time_limits() {
    assert_eq!(calc_time_limit(0), 180_000);
    assert_eq!(calc_time_limit(25), 179_000);
    assert_eq!(calc_time_limit(5000), 5_000);
    assert!(calc_time_limit(40) <= calc_time_limit(30));
}

#[test]
fn find_dot_play() {
    let mut g = FindDot::new(11);
    let mut fx = Vec::new();
    assert!(g.handle_key_event(KeyCode::Center, KeyState::Pressed, 40, 29, 0, &mut fx));
    assert_eq!(g.state, FindState::Playing);
    assert_eq!(fx, vec![FindEffect::SayStart]);
    assert!(g.dot_pending);
    while !g.try_spawn_dot(40, 29) {}
    assert!(!g.dot_pending);
    assert_eq!(g.cursor_position.x, 20);
    assert_eq!(g.cursor_position.y, 14);
    g.dot_position.x = 22;
    g.dot_position.y = 14;
    fx.clear();
    assert!(g.handle_key_event(KeyCode::Right, KeyState::Pressed, 40, 29, 10, &mut fx));
    assert_eq!(g.cursor_position.x, 21);
    assert_eq!(g.score, 1);
    assert_eq!(fx, vec![FindEffect::PlayFind]);
    assert_eq!(g.pending_tts, Some((1, 710)));
    g.handle_key_event(KeyCode::Right, KeyState::Released, 40, 29, 20, &mut fx);
    assert!(!g.right_pressed);
    fx.clear();
    assert!(g.tick(40, 29, 710, false, &mut fx));
    assert_eq!(fx, vec![FindEffect::SayScore(1)]);
    fx.clear();
    g.tick(40, 29, 10 + 180_000, false, &mut fx);
    assert_eq!(g.state, FindState::End);
    assert_eq!(fx, vec![FindEffect::SayGameOver(1)]);
}

#[test]
fn find_dot_repeat_timing() {
    let mut g = FindDot::new(5);
    g.on_key_pressed(KeyCode::Up, 1000);
    assert!(!g.poll_repeat(1050));
    assert!(g.poll_repeat(1100));
    assert!(!g.poll_repeat(1110));
    assert!(g.poll_repeat(1125));
    g.heartbeat_armed = true;
    assert!(!g.poll_repeat(1400));
    assert!(!g.up_pressed);
}

#[test]
fn function_key_cycles_vibration_modes() {
    let mut game = RhythmSession::new(1);
    assert_eq!(game.vibration_mode, VibrationMode::Swell);
    assert_eq!(game.handle_key(KeyCode::Function), RhythmKeyAction::VibrationChanged);
    assert_eq!(game.vibration_mode, VibrationMode::HardwareSteps);
    assert_eq!(game.handle_key(KeyCode::Function), RhythmKeyAction::VibrationChanged);
    assert_eq!(game.vibration_mode, VibrationMode::Swell, "두 번 누르면 처음 방식으로 돌아와야 합니다");
    let mut mode = VibrationMode::Swell;
    mode = mode.next();
    assert_eq!(mode, VibrationMode::HardwareSteps);
    mode = mode.next();
    assert_eq!(mode, VibrationMode::Swell);
    assert_eq!(VibrationMode::HardwareSteps.label(Language::Ja), "点滅8段階。ハードウェアが点滅します。");
}

#[test]
fn hit_windows_and_miss() {
    let mut t = Tally::new();
    t.apply_judge(Judge::Perfect);
    assert_eq!(t.perfect, 1);
    assert_eq!(t.combo, 1);
    t.apply_judge(Judge::Good);
    assert_eq!(t.good, 1);
    assert_eq!(t.combo, 2);
    t.apply_judge(Judge::Miss);
    assert_eq!(t.miss, 1);
    assert_eq!(t.combo, 0);
    assert_eq!(t.max_combo, 2);
    assert_eq!(t.score, 150);
    assert_eq!(Judge::Good.score(), 50);
    let mut game = RhythmSession::new(1);
    assert_eq!(game.handle_key(KeyCode::Center), RhythmKeyAction::StartSong);
    game.judge_note(Judge::Perfect);
    assert_eq!(game.tally.perfect, 1);
    assert_eq!(game.tally.combo, 1);
    assert_eq!(game.next_note, 1);
    game.judge_note(Judge::Good);
    assert_eq!(game.tally.good, 1);
    assert_eq!(game.tally.combo, 2);
    game.judge_note(Judge::Miss);
    assert_eq!(game.tally.miss, 1);
    assert_eq!(game.tally.combo, 0);
    assert_eq!(game.tally.max_combo, 2);
}

#[test]
fn rhythm_session_keys_and_speech() {
    let mut s = RhythmSession::new(3);
    assert_eq!(s.speech(Language::En, "Little Snowman", 0).unwrap(), "Track 1, Little Snowman. Press the center key to start.");
    assert_eq!(s.handle_key(KeyCode::Left), RhythmKeyAction::Redraw);
    assert_eq!(s.selected, 2);
    assert_eq!(s.handle_key(KeyCode::Down), RhythmKeyAction::Redraw);
    assert_eq!(s.selected, 0);
    assert_eq!(s.speech(Language::Ko, "꼬마 눈사람", 0).unwrap(), "1번, 꼬마 눈사람. 시작하려면 가운데 키를 누르세요.");
    assert_eq!(s.handle_key(KeyCode::Function), RhythmKeyAction::VibrationChanged);
    assert_eq!(s.vibration_mode, VibrationMode::HardwareSteps);
    assert_eq!(s.handle_key(KeyCode::Center), RhythmKeyAction::StartSong);
    assert_eq!(s.state, RhythmState::Playing);
    assert_eq!(s.speech(Language::En, "x", 0), None);
    assert_eq!(s.handle_key(KeyCode::Center), RhythmKeyAction::Hit);
    s.judge_note(Judge::Perfect);
    s.judge_note(Judge::Good);
    s.judge_note(Judge::Miss);
    assert_eq!(s.next_note, 3);
    assert_eq!((s.tally.score, s.tally.max_combo, s.tally.combo), (150, 2, 0));
    s.state = RhythmState::Result;
    assert_eq!(
        s.speech(Language::En, "x", 50).unwrap(),
        "Finished. Score 150, accuracy 50 percent, max combo 2. Perfect 1, good 1, miss 1. Press the center key to pick another track."
    );
    assert_eq!(s.speech(Language::Ja, "x", 50).unwrap(), "演奏終了。スコア150点、正確度50パーセント、最大コンボ2。");
    assert_eq!(s.handle_key(KeyCode::Center), RhythmKeyAction::Redraw);
    assert_eq!(s.state, RhythmState::SongSelect);
    assert_eq!(s.handle_key(KeyCode::Menu), RhythmKeyAction::Exit);
    let before = s;
    s.handle_key(KeyCode::Right);
    s.handle_key(KeyCode::Left);
    assert_eq!(s, before);
    s.handle_key(KeyCode::Function);
    s.handle_key(KeyCode::Function);
    assert_eq!(s, before);
    let mut empty = RhythmSession::new(0);
    assert_eq!(empty.handle_key(KeyCode::Right), RhythmKeyAction::Nothing);
    assert_eq!(empty.handle_key(KeyCode::Center), RhythmKeyAction::Redraw);
    assert_eq!(empty.state, RhythmState::SongSelect);
    assert_eq!(empty.speech(Language::En, "", 0).unwrap(), "No playable songs.");
}

#[test]
fn rhythm_screen_parts() {
    assert_eq!(circle_diameter(48, 32), 24);
    assert_eq!(circle_diameter(10, 10), 6);
    assert_eq!(circle_diameter(96, 60), 40);
    assert_eq!(flash_length(Judge::Perfect, 48), 48);
    assert_eq!(flash_length(Judge::Good, 48), 24);
    assert_eq!(flash_length(Judge::Miss, 48), 8);
    assert_eq!(flash_length(Judge::Miss, 3), 1);
    assert_eq!(select_dots(48, 32, 1, 0), vec![(24, 30, true)]);
    assert_eq!(select_dots(48, 32, 3, 1), vec![(21, 30, false), (24, 30, true), (27, 30, false)]);
    assert_eq!(select_dots(48, 32, 0, 0), vec![(24, 30, true)]);
}

#[test]
fn tactile_game_flow() {
    let q = Quiz::new_with_index(2);
    assert_eq!(q.vibration_levels, vec![3, 6, 9, 12, 15]);
    assert_eq!(q.answer, 9);
    let mut g = TactileGame::new(99);
    let mut fx = Vec::new();
    g.handle_key_event(KeyCode::Center, Some(0), &mut fx);
    assert_eq!(g.state, braille_suite::tactile_game::GameState::Playing);
    assert_eq!(fx, vec![TgEffect::RefillTimer, TgEffect::RefillTimer, TgEffect::ResetAnswerBar, TgEffect::Say(TgMessage::StartGame)]);
    assert_eq!(g.quiz_bag.len(), 4);
    let answer_index = g.quiz.as_ref().unwrap().quiz_index;
    fx.clear();
    g.handle_key_event(KeyCode::Center, Some(answer_index), &mut fx);
    assert_eq!(g.score, 10);
    assert_eq!(g.feedback_timer, 20);
    assert_eq!(fx, vec![TgEffect::PlayCorrect, TgEffect::Say(TgMessage::Correct)]);
    fx.clear();
    for _ in 0..20 {
        g.advance_feedback(&mut fx);
    }
    assert_eq!(g.quiz_count, 2);
    assert_eq!(fx, vec![TgEffect::RefillTimer, TgEffect::ResetAnswerBar, TgEffect::Say(TgMessage::NextQuestion(2))]);
    let mut seen = vec![answer_index, g.quiz.as_ref().unwrap().quiz_index];
    for _ in 0..3 {
        g.on_time_out(&mut fx);
        seen.push(g.quiz.as_ref().unwrap().quiz_index);
    }
    seen.sort();
    assert_eq!(seen, vec![0, 1, 2, 3, 4]);
    assert_eq!(g.score, 7);
    assert_eq!(TgMessage::TimeOut(0, 5).segments(Language::En), vec!["Time out! 1 point deducted. Current score is ", "0", " points. Next, question ", "5", "."]);
    fx.clear();
    g.handle_key_event(KeyCode::Menu, None, &mut fx);
    assert_eq!(g.state, braille_suite::tactile_game::GameState::Reset);
    g.handle_key_event(KeyCode::Center, None, &mut fx);
    assert_eq!(g.state, braille_suite::tactile_game::GameState::Ready);
    assert_eq!(g.quiz_count, 1);
}

#[test]
fn tactile_test_questions() {
    let p = pattern_at(0);
    assert_eq!((p.vibration, p.answer_pos), (1, 3));
    let mut t = TactileTest::new(4);
    let mut fx = Vec::new();
    t.handle_key_event(KeyCode::Menu, Language::En, 1000, &mut fx);
    assert_eq!(t.state, TestState::Playing);
    assert_eq!(t.quiz_start_time, Some(7000));
    let q = t.quiz.as_ref().unwrap();
    assert_eq!(q.quiz_index, 2);
    assert_eq!(q.vibration_levels[2], 1);
    let mut others = vec![q.vibration_levels[0], q.vibration_levels[1]];
    others.sort();
    assert!(others.iter().all(|v| (2..=5).contains(v)));
    assert_ne!(others[0], others[1]);
    for _ in 0..9 {
        t.handle_key_event(KeyCode::Center, Language::En, 2000, &mut fx);
    }
    assert_eq!(t.quiz_count, 10);
    fx.clear();
    t.handle_key_event(KeyCode::Center, Language::En, 3000, &mut fx);
    assert_eq!(t.state, TestState::Ready);
    assert_eq!(fx, vec![TtEffect::ResetTimer, TtEffect::RebuildLayout, TtEffect::Say(TtMessage::TestComplete)]);
    assert_eq!(build_quiz_announcement(Language::En, "first"), vec!["This is the ", "first", " question. Please feel the upper square first."]);
}

#[test]
fn tactile_test_guide() {
    let mut t = TactileTest::new(4);
    let mut fx = Vec::new();
    t.handle_key_event(KeyCode::Center, Language::Ko, 0, &mut fx);
    assert_eq!(t.state, TestState::Guide);
    assert_eq!(fx, vec![TtEffect::Say(TtMessage::Guide1)]);
    t.handle_key_event(KeyCode::Center, Language::Ko, 0, &mut fx);
    assert_eq!(t.guide_step, 2);
    assert!(t.advance_tick());
    t.handle_key_event(KeyCode::Function, Language::Ko, 0, &mut fx);
    assert_eq!(t.guide_step, 1);
    fx.clear();
    t.handle_key_event(KeyCode::Function, Language::Ko, 0, &mut fx);
    assert_eq!(t.guide_step, 1);
    assert_eq!(t.state, TestState::Guide);
    assert_eq!(fx, vec![TtEffect::Say(TtMessage::Guide1)]);
    assert_eq!(TtMessage::Guide4.segments(Language::Ko), vec!["아래쪽 사각형은 왼쪽부터 차례로 1번, 2번, 3번이에요."]);
}

#[test]
fn tactile_game_screens() {
    let stop = stop_screen_pins(48, 32);
    assert_eq!(stop.len(), 96);
    assert_eq!(stop[0], (18, 10, 255, false));
    assert_eq!(stop[95], (29, 21, 255, false));
    let reset = reset_screen_pins(48, 32, 0);
    assert_eq!(reset.len(), 163);
    assert_eq!(reset[156], (23, 13, 255, false));
    assert_eq!(reset[157], (24, 13, 255, false));
    let reset = reset_screen_pins(48, 32, 6);
    assert_eq!(reset.len(), 163);
    assert_eq!(reset[0], (1, 0, 255, false));
    let over = over_screen_pins(48, 32, 0);
    assert_eq!(over.len(), 182);
    assert_eq!(over[0], (0, 0, 3, false));
    assert_eq!(over[181], (30, 10, 255, false));
    assert_eq!(over_screen_pins(48, 32, 4)[0], (0, 0, 0, false));
    let ring = feedback_screen_pins(48, 32, true);
    assert_eq!(ring.len(), 60);
    assert_eq!(ring[0], (22, 11, 255, false));
    let wrong = feedback_screen_pins(48, 32, false);
    assert_eq!(wrong.len(), 22);
    assert_eq!(wrong[0], (19, 11, 255, false));
    assert_eq!(wrong[21], (29, 11, 255, false));
    let levels = vec![3u8, 6, 9, 12, 15];
    let play = tg_play_pins(48, 32, Some(&levels), Some(2), None, 0, 10);
    assert_eq!(play.len(), 321);
    assert_eq!(play[0], (2, 21, 51, false));
    assert_eq!(play[320], (45, 31, 6, false));
    assert_eq!(play[321 - 44], (2, 31, 255, false));
    let answered = tg_play_pins(48, 32, Some(&levels), Some(2), Some(true), 0, 10);
    assert_eq!(answered.len(), 370);
    assert_eq!(answered[370 - 45], (26, 27, 255, false));
    let bare = tg_play_pins(48, 32, None, None, None, 0, 44);
    assert_eq!(bare.len(), 44);
    assert_eq!(bare[0], (2, 31, 255, false));
    assert_eq!(bare[43], (45, 31, 255, false));
    assert_eq!(timer_bar_width(48), 44);
    assert_eq!(quiz_box_origin(48, 32), (16, 2));
    assert_eq!(tg_quiz_fill(9), 153);
}

#[test]
fn tactile_test_screens() {
    let ready = tt_ready_pins(48, 32);
    assert_eq!(ready.len(), 425);
    assert_eq!(ready[0], (1, 20, 255, false));
    assert_eq!(ready[424], (44, 27, 182, true));
    let levels = vec![4u8, 1, 5];
    let play = tt_play_pins(48, 32, Some(4), Some(&levels), true, 0);
    assert_eq!(play.len(), 468);
    assert_eq!(play[0], (17, 3, 145, true));
    assert_eq!(play[467], (45, 31, 0, false));
    let mut t = TactileTest::new(1);
    t.guide_step = 7;
    t.tick = 0;
    let g = t.guide_screen_pins(48, 32);
    assert_eq!(g.len(), 424);
    assert_eq!(g[0], (17, 3, 72, true));
    assert_eq!(g[423], (43, 27, 145, true));
    t.guide_step = 5;
    let g = t.guide_screen_pins(48, 32);
    assert_eq!(g.len(), 152);
    assert_eq!(g[151], (45, 31, 255, false));
    t.tick = 15;
    assert_eq!(t.guide_screen_pins(48, 32).len(), 108);
    t.guide_step = 4;
    t.tick = 7;
    assert_eq!(t.guide_screen_pins(48, 32).len(), 72);
}

#[test]
fn find_dot_blinking_cross() {
    let pins = blinking_dot_pins(Point { x: 10, y: 5 }, true);
    assert_eq!(
        pins,
        vec![
            (8, 5, 255),
            (9, 5, 255),
            (10, 5, 255),
            (11, 5, 255),
            (12, 5, 255),
            (10, 3, 255),
            (10, 4, 255),
            (10, 6, 255),
            (10, 7, 255)
        ]
    );
    assert!(blinking_dot_pins(Point { x: 0, y: 0 }, false).iter().all(|p| p.2 == 0));
}

#[test]
fn find_dot_round_timer() {
    let mut g = FindDot::new(3);
    g.score = 25;
    g.start_round(1234);
    assert_eq!(g.round_start, 1234);
    assert_eq!(g.time_limit_ms, calc_time_limit(25));
    assert_eq!(g.score, 25);
}

use braille_suite::cross_memory::{cross_pattern, mode_band, square_position, Direction, GameMode};
use braille_suite::input::{KeyCode, Language};
use braille_suite::settings::{
    default_choices, filter_options, keep_option, language_of_value, menu_box_pins, menu_item, settings_intro, value_position, menu_title, translate_menu_name, translate_value_name, SettingKind, SettingsAction,
    SettingsState,
};
use braille_suite::small_apps::{index_bar_pins, sample, test_url, viewer_key, MirrorMessage, NetworkTest, ViewerAction};
use braille_suite::tactile_test::{get_level_intensity, guide_fill_level, TactileTest};

#[test]
fn cross_pattern_leaves_out_the_lit_square() {
    assert_eq!(square_position(Direction::Left, 10, 5), (9, 5));
    assert_eq!(cross_pattern(10, 5, None), vec![(10, 4), (10, 6), (9, 5), (11, 5), (10, 5)]);
    assert_eq!(cross_pattern(10, 5, Some(Direction::Down)), vec![(10, 4), (9, 5), (11, 5), (10, 5)]);
    assert_eq!(mode_band(GameMode::Tutorial, 10), (0, 3));
    assert_eq!(mode_band(GameMode::Length, 10), (3, 6));
    assert_eq!(mode_band(GameMode::Speed, 10), (6, 10));
}

#[test]
fn guide_blinking() {
    let mut t = TactileTest::new(1);
    t.guide_step = 2;
    t.tick = 14;
    assert!(t.guide_quiz_border());
    t.tick = 15;
    assert!(!t.guide_quiz_border());
    t.guide_step = 4;
    t.tick = 5;
    assert!(!t.guide_panel_border(0));
    assert!(t.guide_panel_border(1));
    t.tick = 130;
    assert!(t.guide_panel_border(0));
    assert!(t.guide_panel_border(1));
    t.tick = -5;
    assert!(!t.guide_panel_border(0));
    t.guide_step = 5;
    t.tick = 0;
    assert!(t.guide_timer_bar());
    assert_eq!(get_level_intensity(3), Some(109));
    assert_eq!(get_level_intensity(0), None);
    assert_eq!(guide_fill_level(1), 2);
}

#[test]
fn settings_navigation() {
    let mut s = SettingsState::new(10, 2, 3);
    assert_eq!(s.handle_key(KeyCode::Up), SettingsAction::Idle);
    assert_eq!(s.handle_key(KeyCode::Left), SettingsAction::ApplyAndAnnounceValue);
    assert_eq!(s.current_value_indices, vec![9, 0, 0]);
    assert_eq!(s.handle_key(KeyCode::Right), SettingsAction::ApplyAndAnnounceValue);
    assert_eq!(s.current_value_indices, vec![0, 0, 0]);
    assert_eq!(s.handle_key(KeyCode::Down), SettingsAction::AnnounceSetting);
    assert_eq!(menu_item(s.selected_index), SettingKind::Language);
    s.handle_key(KeyCode::Down);
    assert_eq!(s.handle_key(KeyCode::Down), SettingsAction::Idle);
    assert_eq!(s.handle_key(KeyCode::Center), SettingsAction::ApplyAndConfirm);
    assert_eq!(translate_menu_name(SettingKind::SpeechRate, Language::Ko), "속도");
    assert_eq!(menu_title(SettingKind::Volume, Language::En), "Volume 설정");
    assert_eq!(translate_value_name(SettingKind::Language, "1", "x", None, Language::Ko), "영어");
    assert_eq!(translate_value_name(SettingKind::SpeechRate, "2", "x", None, Language::En), "Fast");
    assert_eq!(translate_value_name(SettingKind::SpeechRate, "7", "seven", None, Language::En), "seven");
    assert_eq!(translate_value_name(SettingKind::Volume, "30", "30", Some("삼십".to_string()), Language::Ko), "삼십");
    assert_eq!(language_of_value("1"), Language::En);
    assert_eq!(language_of_value("2"), Language::Ko);
}

#[test]
fn small_applets() {
    assert_eq!(viewer_key(0, KeyCode::Up), ViewerAction::ShowSample(3));
    assert_eq!(viewer_key(3, KeyCode::Down), ViewerAction::ShowSample(0));
    assert_eq!(viewer_key(2, KeyCode::Center), ViewerAction::SaySample(2));
    assert_eq!(sample(3), "1234567890 !@#$%^&*()");
    assert_eq!(MirrorMessage::Stop.text(Language::En), "Mirroring Finished");
    assert_eq!(test_url(2).1, "https://httpbin.org/status/418");
    let mut n = NetworkTest::new();
    assert_eq!(n.handle_key(KeyCode::Up, Language::En), (false, None));
    assert_eq!(n.handle_key(KeyCode::Down, Language::En), (true, None));
    assert_eq!(n.speech_output, Some(vec!["Move down. ".to_string(), "Delay 2s (httpbin)".to_string()]));
    assert_eq!(n.handle_key(KeyCode::Center, Language::Ko), (true, Some("https://httpbin.org/delay/2")));
    assert_eq!(n.status_text, "요청 중...");
    n.request_sent(Err(-3), Language::En);
    assert_eq!(n.status_text, "오류: -3");
    assert_eq!(n.speech_output, Some(vec!["Failed to send request. Error code ".to_string(), "-3".to_string()]));
    n.request_sent(Ok(4), Language::En);
    assert_eq!(n.handle_key(KeyCode::Center, Language::Ko), (false, None));
    n.reply_received(418, Language::Ja);
    assert_eq!(n.status_text, "HTTP 418");
    assert_eq!(n.last_request_id, None);
    assert_eq!(n.speech_output, Some(vec!["HTTPレスポンス受信。ステータスコード ".to_string(), "418".to_string(), "番。".to_string()]));
}

#[test]
fn settings_screen_boxes() {
    let b = menu_box_pins(1, 0, 30, 10, false, 3, 1);
    assert_eq!(b.len(), 166);
    assert_eq!(b[0], (1, 0, 255));
    assert_eq!(b[165], (25, 7, 255));
    let b = menu_box_pins(1, 0, 30, 10, true, 3, 1);
    assert_eq!(b.len(), 386);
    assert_eq!(b[300], (3, 2, 0));
    assert_eq!(b[385], (25, 7, 0));
    assert_eq!(menu_box_pins(1, 0, -1, 10, false, 3, 0).len(), 20);
    let mut s = SettingsState::new(11, 2, 5);
    s.current_value_indices = vec![5, 0, 2];
    s.selected_index = 2;
    let pins = s.screen_pins(32, 20);
    assert_eq!(pins.len(), 388);
    assert_eq!(pins[0], (1, 0, 255));
    assert_eq!(pins[387], (26, 7, 0));
    s.selected_index = 0;
    let pins = s.screen_pins(32, 40);
    assert_eq!(pins.len(), 718);
    assert_eq!(pins[717], (26, 31, 255));
}

#[test]
fn test_menu_bars() {
    let bars = index_bar_pins(3, 1, 15);
    assert_eq!(bars.len(), 78);
    assert_eq!(bars[0], (2, 2, 30));
    assert_eq!(bars[1], (2, 3, 30));
    assert_eq!(bars[26], (2, 7, 255));
    assert_eq!(bars[77], (14, 13, 30));
    assert_eq!(index_bar_pins(6, 9, 10).iter().filter(|p| p.2 == 255).count(), 0);
}

#[test]
fn settings_options_and_intro() {
    assert!(!keep_option(SettingKind::Language, "Japanese", "5"));
    assert!(!keep_option(SettingKind::Language, "일본어 (日本語)", "3"));
    assert!(!keep_option(SettingKind::Language, "Other", "2"));
    assert!(keep_option(SettingKind::Language, "English", "1"));
    assert!(keep_option(SettingKind::Volume, "日本語", "2"));
    let opts = vec![
        ("Korean".to_string(), "0".to_string()),
        ("English".to_string(), "1".to_string()),
        ("Japanese".to_string(), "2".to_string()),
    ];
    assert_eq!(
        filter_options(SettingKind::Language, &opts),
        vec![("Korean".to_string(), "0".to_string()), ("English".to_string(), "1".to_string())]
    );
    assert_eq!(filter_options(SettingKind::SpeechRate, &opts).len(), 3);
    let values = vec!["0".to_string(), "1".to_string(), "1".to_string()];
    assert_eq!(value_position(&values, "1"), Some(1));
    assert_eq!(value_position(&values, "5"), None);
    let (names, vals) = default_choices();
    assert_eq!(names[1], vec!["한국어".to_string(), "영어".to_string()]);
    assert_eq!(names[2], vec!["느리게".to_string(), "보통".to_string(), "빠르게".to_string()]);
    assert_eq!(vals[0].len(), 10);
    assert_eq!(vals[0][9], "100");
    assert_eq!(vals[2], vec!["0".to_string(), "1".to_string(), "2".to_string()]);
    assert_eq!(
        settings_intro(Language::En, "Volume 설정", "10").concat(),
        "Starting Settings app. Use Up/Down to select items, Left/Right to change values. First item: Volume 설정, Current value: 10."
    );
    assert_eq!(settings_intro(Language::Ko, "a", "b")[4], ".");
    let mut s = SettingsState::new(10, 2, 3);
    s.set_value_index(2, 2);
    assert_eq!(s.current_value_indices, vec![0, 0, 2]);
}

use braille_suite::audio_service::{
    choose_asset_dir, espeak_data_candidates, lang_str, missing_model_message, parse_language, parse_port, port_from,
    sequence_plan, speech_chunks, AssetDirChoice, Error, ErrorReply, MixerCommand, PlaybackCategory, TaskList, TrackList, TrackOp,
    TtsErrorResponse,
};
use braille_suite::audio_test::{beep_sound, AudioTestApp, Segment, SpeechMode};
use braille_suite::clock::{time_text, AnalogClock};
use braille_suite::demo::{box_strengths, get_perimeter_point, intro_segments, moving_border_pins, Mode};
use braille_suite::dot_drawing::{DotAction, DotKeys};
use braille_suite::drawing_game::{
    brush_mask, close_tools, menu_items, menu_key, menu_panel_pins, open_menu, plot_pixel, DrawAction, DrawingState, HeldKeys,
    MenuAction, PixelCanvas,
};
use braille_suite::drawing_game::{
    clear_key_buffer, new_key_buffer, update_input_state, update_key_buffer, EditorMode, GameStatus, SpeakEvent,
};
use braille_suite::graph::{
    bar_slots, graph_area, graph_axes, graph_key, line_fits_exec, line_graph_columns, linear_line_pins, pie_disc_pins, selected_graph,
    GraphType,
};
use braille_suite::input::{KeyCode, KeyState, Language};
use braille_suite::launcher::{
    applet_box_pins, focus_pins, header_rule_pins,
    category_order, korean_count_number, layout_fits, layout_items, sort_applets, AppletEntry, LauncherAction, LauncherApp,
    LauncherItem, LauncherMessage,
};
use braille_suite::weather::{
    get_weather_desc, located_city, reply_str_field, reply_weather_code, LocationStep, WeatherApp, WeatherState,
};

fn entry(name: &str, category: &str, priority: i64) -> AppletEntry {
    AppletEntry {
        id: name.to_string(),
        name: name.to_string(),
        category: category.to_string(),
        description: format!("{} help", name),
        icon: String::new(),
        priority,
    }
}

#[test]
fn korean_counts() {
    assert_eq!(korean_count_number(1), "한");
    assert_eq!(korean_count_number(20), "스무");
    assert_eq!(korean_count_number(21), "21");
    assert_eq!(korean_count_number(0), "0");
}

#[test]
fn category_ranks() {
    assert_eq!(category_order("  SYSTEM tools "), 0);
    assert_eq!(category_order("Utility"), 1);
    assert_eq!(category_order("점자책"), 2);
    assert_eq!(category_order("My Games"), 3);
    assert_eq!(category_order("Demo"), 4);
    assert_eq!(category_order("테스트"), 5);
    assert_eq!(category_order("Music"), 6);
}

#[test]
fn applets_sort_by_category_priority_and_name() {
    let list = vec![
        entry("Zeta", "Game", 1),
        entry("Memo", "Utility", 2),
        entry("Clock", "Utility", 1),
        entry("Alpha", "Game", 1),
        entry("Settings", "System", 9),
    ];
    let sorted = sort_applets(list);
    let names: Vec<&str> = sorted.iter().map(|e| e.name.as_str()).collect();
    assert_eq!(names, vec!["Settings", "Clock", "Memo", "Alpha", "Zeta"]);
}

#[test]
fn launcher_layout_and_navigation() {
    let sorted = sort_applets(vec![
        entry("Settings", "System", 0),
        entry("A", "Game", 0),
        entry("B", "Game", 1),
        entry("C", "Game", 2),
        entry("D", "Game", 3),
    ]);
    let layout = layout_items(&sorted, 60, Language::En);
    assert_eq!(layout.item_step_x, 18);
    assert_eq!(layout.start_offset_x, 4);
    assert_eq!(layout.items.len(), 7);
    assert_eq!(layout.items[0].pos(), (0, 0));
    assert_eq!(layout.items[1].pos(), (4, 7));
    assert_eq!(layout.items[2].pos(), (0, 23));
    assert_eq!(layout.items[6].pos(), (4, 46));
    assert_eq!(layout.content_height, 62);
    match &layout.items[2] {
        LauncherItem::Category { category_name, applet_count, .. } => {
            assert_eq!(category_name, "Game");
            assert_eq!(*applet_count, 4);
        }
        _ => panic!("expected a header"),
    }
    let mut app = LauncherApp::new();
    let (redraw, action) = app.handle_key_event(&layout.items, &sorted, KeyCode::Down, true);
    assert!(redraw);
    assert_eq!(action, LauncherAction::Idle);
    assert_eq!(app.selected_index, 1);
    app.handle_key_event(&layout.items, &sorted, KeyCode::Down, true);
    assert_eq!(app.selected_index, 2);
    let (_, action) = app.handle_key_event(&layout.items, &sorted, KeyCode::Center, true);
    assert_eq!(action, LauncherAction::Idle);
    assert_eq!(app.selected_index, 3);
    app.handle_key_event(&layout.items, &sorted, KeyCode::Function, true);
    assert_eq!(app.speech_description, Some("A help".to_string()));
    let (_, action) = app.handle_key_event(&layout.items, &sorted, KeyCode::Center, true);
    assert_eq!(action, LauncherAction::Launch(1));
    app.launch_result("A".to_string(), true);
    let (segs, forced) = app.on_speech(&layout.items, &sorted, Language::En).unwrap();
    assert_eq!(segs, vec!["Launching", "A", "app"]);
    assert!(forced);
    app.update_scroll_target(&layout.items, 20, true);
    assert_eq!(app.target_scroll_y, 25);
}

#[test]
fn launcher_messages() {
    assert_eq!(LauncherMessage::LaunchingApp("메모".to_string()).to_segments(Language::Ko), vec!["메모를 실행합니다."]);
    assert_eq!(LauncherMessage::LaunchingApp("시계".to_string()).to_segments(Language::Ko), vec!["시계를 실행합니다."]);
    assert_eq!(LauncherMessage::LaunchingApp("테트리스 게임".to_string()).to_segments(Language::Ko), vec!["테트리스 게임을 실행합니다."]);
    let long = "가".repeat(60);
    assert_eq!(LauncherMessage::LaunchingApp(long.clone()).to_segments(Language::Ko), vec![format!("{}을 실행합니다.", long)]);
    assert_eq!(
        LauncherMessage::CategoryFocused { category: "게임".to_string(), count: 3 }.to_segments(Language::Ko),
        vec![" 게임 카테고리, 세개의 앱이 있습니다."]
    );
    assert_eq!(
        LauncherMessage::CategoryFocused { category: "Games".to_string(), count: 3 }.to_segments(Language::En),
        vec![" Games category, 3 apps available."]
    );
    assert_eq!(LauncherMessage::LoadError.to_segments(Language::Ja), vec!["ランチャーを開始します。", "アプレットリストの取得に失敗しました。"]);
}

#[test]
fn unknown_category_is_labelled_others() {
    let sorted = sort_applets(vec![entry("X", " unKnown ", 0)]);
    let layout = layout_items(&sorted, 60, Language::Ko);
    match &layout.items[0] {
        LauncherItem::Category { category_name, .. } => assert_eq!(category_name, "기타"),
        _ => panic!("expected a header"),
    }
}

#[test]
fn weather_descriptions_and_flow() {
    assert_eq!(get_weather_desc(0), "맑음");
    assert_eq!(get_weather_desc(81), "소나기");
    assert_eq!(get_weather_desc(48), "안개");
    assert_eq!(get_weather_desc(7), "기타 날씨");
    let mut w = WeatherApp::new();
    assert!(!w.primary_sent(Ok(7)));
    assert_eq!(w.last_request_id, Some(7));
    assert!(w.needs_redraw(false));
    w.start_weather_fetch("서울".to_string(), Ok(8));
    assert_eq!(w.speech_output, Some("위치 확인 완료. 서울의 날씨 정보를 조회합니다.".to_string()));
    assert_eq!(w.state_city(), Some("서울"));
    w.on_weather_reply(200, "21.5".to_string(), Some(61));
    assert_eq!(w.state_city(), Some("서울"));
    assert_eq!(w.speech_output, Some("현재 위치는 서울이며, 기온은 21.5도, 날씨는 비입니다.".to_string()));
    assert!(matches!(w.state, WeatherState::Ready(_, _, 61)));
    assert!(w.needs_redraw(false));
    assert!(w.handle_key(KeyCode::Center));
    assert!(matches!(w.state, WeatherState::Init));
    assert_eq!(w.state_city(), None);
    w.backup_failed(503);
    match &w.state {
        WeatherState::Error(m) => assert_eq!(m, "위치 획득 HTTP 오류: 503"),
        _ => panic!("expected an error"),
    }
    w.handle_key(KeyCode::Up);
    assert_eq!(w.speech_output, Some("오류가 발생했습니다. 위치 획득 HTTP 오류: 503. 가운데 버튼을 누르면 다시 시도합니다.".to_string()));
    w.trigger_backup_locator(Err("down".to_string()));
    match &w.state {
        WeatherState::Error(m) => assert_eq!(m, "백업 위치 요청 전송 실패: down"),
        _ => panic!("expected an error"),
    }
    assert_eq!(WeatherApp::city_or_unknown(None), "알 수 없는 도시");
}

#[test]
fn service_errors_and_replies() {
    assert_eq!(Error::Piper("x".to_string()).message(), "Piper TTS 엔진 오류: x");
    assert_eq!(Error::AudioDeviceNotFound(vec![]).message(), "오디오 장치를 찾을 수 없음");
    match Error::Piper("boom".to_string()).into_response() {
        ErrorReply::ServerError(b) => assert_eq!(b.error, "Piper TTS 엔진 실패: boom"),
        _ => panic!("expected a server error"),
    }
    for e in [Error::ActorSend("a".to_string()), Error::ActorReceive("b".to_string())] {
        let r = e.into_response();
        assert_eq!(r.status(), 500);
        match r {
            ErrorReply::ServerError(b) => assert_eq!(b.error, "내부 통신 오류"),
            _ => panic!("expected a server error"),
        }
    }
    match Error::Io("disk".to_string()).into_response() {
        ErrorReply::ServerError(b) => assert_eq!(b.error, "내부 I/O 오류"),
        _ => panic!("expected a server error"),
    }
    let r = Error::AudioDeviceNotFound(vec![1, 2]).into_response();
    assert_eq!(r.status(), 200);
    assert_eq!(r.headers(), vec![("Content-Type", "audio/wav"), ("X-Audio-Status", "DeviceNotFound-Fallback")]);
    assert!(Error::Io("x".to_string()).into_response().headers().is_empty());
    match r {
        ErrorReply::AudioFallback(d) => assert_eq!(d, vec![1, 2]),
        _ => panic!("expected the audio"),
    }
    assert_eq!(TtsErrorResponse::new("e".to_string()).error, "e");
}

#[test]
fn service_configuration() {
    assert_eq!(parse_port("8080"), Some(8080));
    assert_eq!(parse_port("+80"), Some(80));
    assert_eq!(parse_port("65535"), Some(65535));
    assert_eq!(parse_port("65536"), None);
    assert_eq!(parse_port(""), None);
    assert_eq!(parse_port("+"), None);
    assert_eq!(parse_port("80a"), None);
    assert_eq!(parse_port("-1"), None);
    assert_eq!(port_from(None), 3005);
    assert_eq!(port_from(Some("x".to_string())), 3005);
    assert_eq!(port_from(Some("4000".to_string())), 4000);
    assert_eq!(choose_asset_dir(false, true, true), AssetDirChoice::TtsVariable);
    assert_eq!(choose_asset_dir(false, false, false), AssetDirChoice::Assets);
    assert_eq!(espeak_data_candidates()[0], "/usr/share/espeak-ng-data");
    assert_eq!(lang_str(Language::Ja), "Ja");
    assert_eq!(parse_language("En"), Language::En);
    assert_eq!(parse_language("fr"), Language::Ko);
    assert_eq!(missing_model_message("Ja"), "언어 'Ja'에 대한 Piper 모델 및 기본 Piper 모델이 존재하지 않습니다.");
}

#[test]
fn mixer_tracks() {
    let mut t = TrackList::new();
    assert_eq!(t.play(PlaybackCategory::TtsNormal, false), vec![TrackOp::Push(PlaybackCategory::TtsNormal)]);
    assert_eq!(t.play(PlaybackCategory::TtsNormal, false), vec![TrackOp::AppendTo(0)]);
    t.play(PlaybackCategory::SoundEffect, false);
    t.play(PlaybackCategory::SoundEffect, false);
    t.play(PlaybackCategory::TtsImportant, false);
    assert_eq!(t.categories.len(), 4);
    let ops = t.play(PlaybackCategory::SoundEffect, false);
    assert_eq!(ops, vec![TrackOp::Remove(1), TrackOp::Push(PlaybackCategory::SoundEffect)]);
    assert_eq!(t.categories.len(), 4);
    let ops = t.play(PlaybackCategory::TtsNormal, true);
    assert_eq!(ops, vec![TrackOp::RemoveCategory(PlaybackCategory::TtsNormal), TrackOp::Push(PlaybackCategory::TtsNormal)]);
    assert_eq!(t.clear(PlaybackCategory::SoundEffect), TrackOp::RemoveCategory(PlaybackCategory::SoundEffect));
    assert_eq!(t.categories, vec![PlaybackCategory::TtsImportant, PlaybackCategory::TtsNormal]);
}

#[test]
fn background_tasks() {
    let mut tasks = TaskList::new();
    for id in 0..8u64 {
        let finished = vec![false; tasks.ids.len()];
        assert!(tasks.register_task(&finished, id).is_empty());
    }
    let finished = vec![false; 8];
    assert_eq!(tasks.register_task(&finished, 8), vec![0]);
    let mut finished = vec![false; 8];
    finished[0] = true;
    assert!(tasks.register_task(&finished, 9).is_empty());
    assert_eq!(tasks.ids, vec![2, 3, 4, 5, 6, 7, 8, 9]);
    assert!(tasks.has_active(&vec![true, true, true, true, true, true, true, false]));
    assert!(!tasks.has_active(&vec![true; 8]));
    assert_eq!(tasks.clear_tasks().len(), 8);
}

#[test]
fn sequence_plans_and_chunks() {
    let p = sequence_plan(false, false, true);
    assert_eq!(p.category, PlaybackCategory::TtsNormal);
    assert_eq!(p.delay_ms, 300);
    assert!(p.clear_with_first && p.clear_at_start && p.clear_normal_tasks);
    let p = sequence_plan(true, true, true);
    assert_eq!(p.category, PlaybackCategory::TtsImportant);
    assert_eq!(p.delay_ms, 0);
    assert!(!p.clear_with_first && !p.clear_at_start);
    assert_eq!(speech_chunks("  hello  "), vec!["hello"]);
}

#[test]
fn audio_test_app() {
    let beep = beep_sound();
    assert_eq!(beep.len(), 4044);
    assert_eq!(&beep[0..4], b"RIFF");
    assert_eq!(&beep[36..40], b"data");
    assert_eq!(beep[44], 128);
    assert_eq!(beep[45], 128);
    assert_eq!(beep[44 + 2002], 248);
    assert_eq!(beep[44 + 3999], 128);
    let mut app = AudioTestApp::new();
    assert_eq!(app.handle_key(KeyCode::Up), (false, false));
    for _ in 0..4 {
        app.handle_key(KeyCode::Down);
    }
    assert_eq!(app.handle_key(KeyCode::Center), (true, true));
    let (segs, mode) = app.on_speech(Language::En, "one").unwrap();
    assert_eq!(mode, SpeechMode::Normal);
    assert!(matches!(&segs[0], Segment::Text(t) if t == "TTS outputted with sound effect. Count "));
    app.handle_key(KeyCode::Up);
    let (_, mode) = app.on_speech(Language::Ko, "").unwrap();
    assert_eq!(mode, SpeechMode::Normal);
    app.handle_key(KeyCode::Center);
    let (segs, mode) = app.on_speech(Language::Ko, "하나").unwrap();
    assert_eq!(mode, SpeechMode::Important);
    assert_eq!(segs.len(), 5);
    assert!(matches!(segs[3], Segment::Silence(500)));
}

#[test]
fn clock_time() {
    let mut c = AnalogClock::new();
    assert!(c.tick(3661, 0));
    assert!(!c.tick(3661 + 60, 0));
    let t = c.on_time_request(3600 * 25 + 61, -3600);
    assert_eq!((t.hours, t.minutes, t.seconds), (0, 1, 1));
    assert_eq!(time_text(Language::Ko, "오전", "열두시", "영분", "영초"), "오전 열두시 영분 영초");
    assert_eq!(time_text(Language::En, "PM", "Two", "Fifteen", "thirty seconds"), "It's Two Fifteen PM and thirty seconds");
}

#[test]
fn demo_boxes_and_border() {
    assert_eq!(Mode::Blink8.total_steps(), 8);
    assert_eq!(Mode::Static8.toggled(), Mode::Blink8);
    assert_eq!(box_strengths(8), vec![0, 36, 72, 109, 145, 182, 218, 255]);
    assert_eq!(get_perimeter_point(0, 0, 4, 3, 0), (0, 0));
    assert_eq!(get_perimeter_point(0, 0, 4, 3, 4), (3, 1));
    assert_eq!(get_perimeter_point(0, 0, 4, 3, 6), (2, 2));
    assert_eq!(get_perimeter_point(0, 0, 4, 3, 9), (0, 1));
    assert_eq!(get_perimeter_point(0, 0, 4, 3, -1), (0, 1));
    assert_eq!(intro_segments(Mode::Static8, Language::En), vec!["Press function key to toggle static and blink modes. Current mode ", "Level 8 Static"]);
}

#[test]
fn graph_names_and_line() {
    assert_eq!(GraphType::PieChart.text(Language::En), "Pie Chart");
    assert_eq!(GraphType::PieChart.text(Language::Ja), "파이 차트");
    assert_eq!(selected_graph(0), Some(GraphType::LinearEquation));
    assert_eq!(selected_graph(7), None);
    assert_eq!(graph_key(Some(GraphType::LinearEquation), 0, KeyCode::Left), (-1, true));
    assert_eq!(graph_key(Some(GraphType::BarChart), 0, KeyCode::Left), (0, false));
    let a = graph_area(20, 8);
    assert_eq!((a.width, a.height, a.screen_cx, a.screen_cy), (9, 6, 13, 4));
    let pins = linear_line_pins(a, 0);
    assert_eq!(pins, vec![(11, 6), (12, 5), (13, 4), (14, 3), (15, 2), (16, 1)]);
}

#[test]
fn graph_shapes() {
    let a = graph_area(30, 12);
    assert_eq!((a.width, a.height, a.cx, a.cy), (19, 10, 9, 5));
    assert_eq!(graph_axes(GraphType::BarChart, a), Some((10, 9)));
    assert_eq!(graph_axes(GraphType::QuadraticEquation, a), Some((6, 18)));
    assert_eq!(graph_axes(GraphType::LinearEquation, a), Some((6, 18)));
    assert_eq!(graph_axes(GraphType::PieChart, a), None);
    let disc = pie_disc_pins(a);
    assert_eq!(disc.len(), 29);
    assert_eq!(disc[0], (18, 3));
    assert_eq!(disc[28], (18, 9));
    assert_eq!(bar_slots(a), vec![(10, 1), (13, 1), (16, 1), (19, 1), (22, 1)]);
    assert_eq!(line_graph_columns(a), vec![9, 12, 15, 18, 21, 24, 27]);
}

#[test]
fn brush_stamps_the_canvas() {
    let mut c = PixelCanvas::new(4, 3);
    assert_eq!(c.pixels, vec![0u8; 12]);
    let mask = brush_mask(1);
    plot_pixel(&mut c, EditorMode::Draw, &mask, 0, 0);
    assert_eq!(c.pixels, vec![255, 255, 0, 0, 255, 0, 0, 0, 0, 0, 0, 0]);
    plot_pixel(&mut c, EditorMode::BrushSizeChange, &mask, 2, 1);
    assert_eq!(c.pixels, vec![255, 255, 0, 0, 255, 0, 0, 0, 0, 0, 0, 0]);
    plot_pixel(&mut c, EditorMode::Erase, &mask, 1, 1);
    assert_eq!(c.pixels, vec![255, 0, 0, 0, 0, 0, 0, 0, 0, 0, 0, 0]);
    plot_pixel(&mut c, EditorMode::Draw, &vec![(0, 0)], 3, 2);
    assert_eq!(c.pixels[11], 255);
    plot_pixel(&mut c, EditorMode::Draw, &vec![(0, 0)], 4, 2);
    assert_eq!(c.pixels.iter().filter(|&&p| p == 255).count(), 2);
}

#[test]
fn dot_board_function_keys() {
    let held = |center: bool, function: bool| HeldKeys {
        up: false,
        down: false,
        left: false,
        right: false,
        center,
        function,
        menu: false,
    };
    let mut k = DotKeys::new();
    assert_eq!(k.process_input_logic(EditorMode::Draw, held(true, false)), vec![DotAction::Plot]);
    assert_eq!(k.process_input_logic(EditorMode::Draw, held(true, false)), vec![]);
    assert_eq!(
        k.process_input_logic(EditorMode::Draw, held(false, true)),
        vec![DotAction::SetTool(EditorMode::Erase)]
    );
    assert_eq!(k, DotKeys { prev_center: false, prev_function: true });
    assert_eq!(
        k.process_input_logic(EditorMode::Erase, held(true, false)),
        vec![DotAction::Plot]
    );
    assert_eq!(
        k.process_input_logic(EditorMode::Erase, held(false, true)),
        vec![DotAction::SetTool(EditorMode::Draw)]
    );
    assert_eq!(
        k.process_input_logic(EditorMode::BrushSizeChange, held(true, false)),
        vec![]
    );
}

#[test]
fn tool_menu_keys_and_panel() {
    assert_eq!(menu_items(), vec![EditorMode::Draw, EditorMode::Erase, EditorMode::BrushSizeChange]);
    assert_eq!(open_menu(10, EditorMode::Erase), (25, 1));
    assert_eq!(open_menu(40, EditorMode::BrushSizeChange), (40, 2));
    assert_eq!(menu_key(2, KeyCode::Center), MenuAction::SelectMode(EditorMode::BrushSizeChange));
    assert_eq!(menu_key(0, KeyCode::Menu), MenuAction::Close);
    assert_eq!(menu_key(0, KeyCode::Left), MenuAction::Idle);
    assert_eq!(close_tools(Language::En), "Close tools");
    let pins = menu_panel_pins(4, 20);
    assert_eq!(pins.len(), 36);
    assert_eq!(pins[0], (0, 11, true));
    assert_eq!(pins[5], (1, 12, false));
    assert_eq!(pins[7], (3, 12, true));
    assert_eq!(pins[35], (3, 19, true));
    assert_eq!(pins.iter().filter(|p| !p.2).count(), 14);
}

#[test]
fn drawing_game_texts_and_keys() {
    assert_eq!(EditorMode::Erase.text(Language::Ko), "지우기 도구");
    assert_eq!(GameStatus::Playing.description(Language::En), "");
    assert_eq!(SpeakEvent::BrushSizeChanged(true).text(Language::Ja), "大きく");
    assert_eq!(SpeakEvent::BrushSizeChangeGuide.segments(Language::En).len(), 4);
    assert_eq!(
        SpeakEvent::BrushSizeChangeGuide.text(Language::En),
        "This is the brush size change mode. Adjust the size using the up and down arrow keys, press the center key to apply, or press the menu key to cancel."
    );
    let mut buf = new_key_buffer();
    update_key_buffer(&mut buf, KeyCode::Up, KeyState::Pressed, 2);
    update_key_buffer(&mut buf, KeyCode::Center, KeyState::Pressed, 2);
    update_key_buffer(&mut buf, KeyCode::Left, KeyState::Pressed, 2);
    update_key_buffer(&mut buf, KeyCode::Down, KeyState::Pressed, 2);
    let held = update_input_state(&buf);
    assert!(!held.up && held.left && held.down && held.center);
    update_key_buffer(&mut buf, KeyCode::Center, KeyState::Released, 2);
    update_key_buffer(&mut buf, KeyCode::Left, KeyState::Pressed, 2);
    let held = update_input_state(&buf);
    assert!(held.left && held.down && !held.center);
    clear_key_buffer(&mut buf);
    assert!(!update_input_state(&buf).left);
}

#[test]
fn drawing_board_keys_and_brush() {
    let none = HeldKeys { up: false, down: false, left: false, right: false, center: false, function: false, menu: false };
    let mut s = DrawingState::new(2);
    let mut acts = Vec::new();
    s.process_input_logic(HeldKeys { function: true, ..none }, &mut acts);
    assert_eq!(s.mode, EditorMode::Erase);
    assert_eq!(acts, vec![DrawAction::Say(SpeakEvent::ToolChange(EditorMode::Erase)), DrawAction::Plot]);
    acts.clear();
    s.process_input_logic(HeldKeys { menu: true, ..none }, &mut acts);
    assert_eq!(s.state, GameStatus::Menu);
    assert_eq!(s.prev_mode, EditorMode::Erase);
    assert_eq!(acts, vec![DrawAction::Say(SpeakEvent::GameStatusChange(GameStatus::Menu)), DrawAction::EnterMenu, DrawAction::Plot]);
    s.set_mode(EditorMode::BrushSizeChange, &mut acts);
    acts.clear();
    s.brush_key(KeyCode::Up, 0, 3, &mut acts);
    s.brush_key(KeyCode::Up, 0, 3, &mut acts);
    assert_eq!(s.brush_size, 3);
    acts.clear();
    s.process_input_logic(HeldKeys { menu: true, ..none }, &mut acts);
    s.process_input_logic(none, &mut acts);
    acts.clear();
    s.process_input_logic(HeldKeys { menu: true, ..none }, &mut acts);
    assert_eq!(s.brush_size, 2);
    assert_eq!(s.mode, EditorMode::Erase);
    assert_eq!(brush_mask(1), vec![(0, -1), (-1, 0), (0, 0), (1, 0), (0, 1)]);
    assert_eq!(brush_mask(0), vec![(0, 0)]);
    let mut s = DrawingState::new(0);
    s.update_cursor_blink(false, 250);
    assert!(s.cursor_visible);
    s.update_cursor_blink(false, 100);
    assert!(!s.cursor_visible);
    assert_eq!(s.cursor_blink_ms, 50);
    s.update_cursor_blink(true, 10);
    assert!(s.cursor_visible);
}

#[test]
fn launcher_canvas_parts() {
    assert_eq!(
        applet_box_pins("101\n010\n", 5, 0, 15, 15, 48, 100),
        vec![(7, 2, 255), (8, 2, 0), (9, 2, 255), (7, 3, 0), (8, 3, 255), (9, 3, 0)]
    );
    let frame = applet_box_pins("", -3, 0, 15, 15, 48, 100);
    assert_eq!(frame.len(), 37);
    assert_eq!(frame[0], (0, 0, 80));
    assert_eq!(frame[36], (11, 14, 80));
    assert_eq!(applet_box_pins("", 0, 0, 3, 3, 48, 100).len(), 8);
    let rule = header_rule_pins(10, 0, 48, 100);
    assert_eq!(rule.len(), 62);
    assert_eq!(rule[0], (15, 2, 255));
    assert_eq!(rule[61], (45, 3, 255));
    assert!(header_rule_pins(60, 0, 48, 100).is_empty());
    assert!(header_rule_pins(10, 98, 48, 100).is_empty());
    let focus = focus_pins(true, 10, 0, 0, 48, 32);
    assert_eq!(focus.len(), 38);
    assert_eq!(focus[37], (13, 6, 255));
    let focus = focus_pins(false, 0, 16, -2, 48, 32);
    assert_eq!(focus.len(), 39);
    assert_eq!(focus[0], (16, 0, 255));
    assert_eq!(focus[38], (30, 12, 255));
}

#[test]
fn demo_moving_borders() {
    let outer = moving_border_pins(0, 0, 48, 32, 2, 1, 3, 1, 1);
    assert_eq!(outer.len(), 39);
    assert_eq!(outer[0], (2, 0));
    assert_eq!(outer[38], (0, 2));
    let inner = moving_border_pins(1, 1, 46, 30, 2, -1, 3, 1, 1);
    assert_eq!(inner.len(), 37);
    assert_eq!(inner[0], (3, 1));
    assert_eq!(inner[36], (1, 3));
    let thick = moving_border_pins(0, 0, 10, 6, 0, 1, 1, 1, 2);
    assert_eq!(thick.len(), 28);
    assert_eq!(thick[..4], [(0, 0), (0, 1), (2, 0), (2, 1)]);
    assert_eq!(thick[26..], [(0, 2), (1, 2)]);
    assert!(moving_border_pins(0, 0, 1, 10, 0, 1, 3, 1, 1).is_empty());
}

#[test]
fn weather_replies_are_read() {
    let body = br#"{"city":"Busan","cityName":"Seoul","latitude":35.1}"#;
    assert_eq!(located_city(body, "city"), "Busan");
    assert_eq!(located_city(body, "cityName"), "Seoul");
    assert_eq!(located_city(body, "country"), "알 수 없는 도시");
    assert_eq!(located_city(b"not json", "city"), "알 수 없는 도시");
    assert_eq!(reply_str_field(br#"{"city":7}"#, "city"), None);
    assert_eq!(reply_weather_code(br#"{"current_weather":{"temperature":3.5,"weathercode":61}}"#), Some(61));
    assert_eq!(reply_weather_code(b"{}"), None);
    let mut w = WeatherApp::new();
    assert!(!w.primary_sent(Ok(1)));
    match w.on_location_reply(200, body) {
        LocationStep::Located(c) => assert_eq!(c, "Busan"),
        other => panic!("unexpected {:?}", other),
    }
    assert!(matches!(w.on_location_reply(500, body), LocationStep::AskBackup));
    assert!(matches!(w.state, WeatherState::LocatingPrimary));
    w.trigger_backup_locator(Ok(2));
    match w.on_location_reply(200, body) {
        LocationStep::Located(c) => assert_eq!(c, "Seoul"),
        other => panic!("unexpected {:?}", other),
    }
    assert!(matches!(w.on_location_reply(404, body), LocationStep::Failed));
    match &w.state {
        WeatherState::Error(m) => assert_eq!(m, "위치 획득 HTTP 오류: 404"),
        _ => panic!("expected an error"),
    }
    w.start_weather_fetch("부산".to_string(), Ok(3));
    w.on_weather_body(200, "3.5".to_string(), br#"{"current_weather":{"temperature":3.5,"weathercode":61}}"#);
    assert_eq!(w.speech_output, Some("현재 위치는 부산이며, 기온은 3.5도, 날씨는 비입니다.".to_string()));
    w.start_weather_fetch("부산".to_string(), Ok(4));
    w.on_weather_body(200, "0".to_string(), b"garbage");
    assert!(matches!(w.state, WeatherState::Ready(_, _, 0)));
}

#[test]
fn applet_sort_keeps_ties_in_order() {
    let mut first = entry("Same", "Game", 1);
    first.id = "first".to_string();
    let mut second = entry("Same", "Game", 1);
    second.id = "second".to_string();
    let mut third = entry("Same", "Game", 1);
    third.id = "third".to_string();
    let sorted = sort_applets(vec![first, entry("Apple", "Game", 1), second, entry("Clock", "System", 0), third]);
    let ids: Vec<&str> = sorted.iter().map(|e| e.id.as_str()).collect();
    assert_eq!(ids, vec!["Clock", "Apple", "first", "second", "third"]);
}

#[test]
fn launcher_layout_height_limit() {
    let few: Vec<AppletEntry> = (0..5).map(|i| entry(&format!("A{}", i), "Game", i)).collect();
    assert!(layout_fits(&few));
    let many: Vec<AppletEntry> = (0..1500).map(|i| entry(&format!("A{}", i), &format!("C{}", i), 0)).collect();
    assert!(!layout_fits(&many));
    let grouped: Vec<AppletEntry> = (0..1500).map(|i| entry(&format!("A{}", i), "Game", 0)).collect();
    assert!(layout_fits(&grouped));
}

#[test]
fn mixer_keeps_one_track_per_speech_category() {
    let mut t = TrackList::new();
    for (c, clear) in [
        (PlaybackCategory::TtsNormal, false),
        (PlaybackCategory::TtsNormal, false),
        (PlaybackCategory::SoundEffect, false),
        (PlaybackCategory::SoundEffect, true),
        (PlaybackCategory::TtsImportant, true),
        (PlaybackCategory::TtsImportant, true),
        (PlaybackCategory::SoundEffect, false),
    ] {
        t.play(c, clear);
        assert!(t.categories.len() <= 4);
        for (i, a) in t.categories.iter().enumerate() {
            for b in &t.categories[i + 1..] {
                assert!(a != b || *a == PlaybackCategory::SoundEffect);
            }
        }
    }
    t.clear(PlaybackCategory::SoundEffect);
    assert_eq!(t.categories, vec![PlaybackCategory::TtsNormal, PlaybackCategory::TtsImportant]);
}

#[test]
fn graph_line_with_far_offsets() {
    let a = graph_area(20, 8);
    assert!(line_fits_exec(a, 5000));
    assert!(linear_line_pins(a, 5000).is_empty());
    assert!(line_fits_exec(a, 1001));
    assert!(!line_fits_exec(a, 32760));
    assert!(line_fits_exec(a, -32760));
    assert!(!line_fits_exec(a, -32767));
    let narrow = graph_area(5, 8);
    assert_eq!(narrow.width, -6);
    assert!(line_fits_exec(narrow, 32767));
    assert!(linear_line_pins(narrow, 0).is_empty());
    let (mut off, mut moved) = (0i16, false);
    for _ in 0..1001 {
        let r = graph_key(Some(GraphType::LinearEquation), off, KeyCode::Right);
        off = r.0;
        moved = r.1;
    }
    assert!(moved);
    assert_eq!(off, 1001);
    assert_eq!(linear_line_pins(a, off).len(), 0);
    assert_eq!(linear_line_pins(a, 3), vec![(14, 6), (15, 5), (16, 4), (17, 3)]);
}

#[test]
fn mixer_commands_in_sequence() {
    let mut t = TrackList::new();
    let play = |c, s, cl| MixerCommand::Play { category: c, has_samples: s, clear_previous: cl };
    assert!(t.apply(play(PlaybackCategory::TtsNormal, false, false)).is_empty());
    assert!(t.categories.is_empty());
    assert_eq!(t.apply(play(PlaybackCategory::TtsNormal, true, false)), vec![TrackOp::Push(PlaybackCategory::TtsNormal)]);
    assert_eq!(t.apply(play(PlaybackCategory::TtsNormal, true, false)), vec![TrackOp::AppendTo(0)]);
    assert!(t.apply(MixerCommand::SetVolume).is_empty());
    t.apply(play(PlaybackCategory::SoundEffect, true, false));
    assert_eq!(t.apply(MixerCommand::Clear(PlaybackCategory::TtsNormal)), vec![TrackOp::RemoveCategory(PlaybackCategory::TtsNormal)]);
    assert_eq!(t.categories, vec![PlaybackCategory::SoundEffect]);
}

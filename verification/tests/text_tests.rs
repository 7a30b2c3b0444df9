use braille_suite::brf::{
    brf_char_to_cell, cell_to_brf_char, cell_words, parse_brf_to_lines, text_lines, text_to_braille_lines, text_to_brf,
    LineReader,
};
use braille_suite::chunk::{chunk_text, TextChunker};
use braille_suite::input::{KeyCode, KeyState, Language};
use braille_suite::memo::{
    deserialize_lines, end_cursor, serialize_lines, KeypadSide, MemoKeys, MemoMode, ModeTtsMessage, TextCommand,
};
use braille_suite::text::decimal_string;

#[test]
fn chunks_split_at_sentence_ends() {
    let c = TextChunker::new(5);
    assert_eq!(c.chunk_text("Hello world. This is a test."), vec!["Hello world.", "This is a test."]);
}

#[test]
fn chunks_keep_abbreviations_together() {
    let c = TextChunker::new(2);
    assert_eq!(c.chunk_text("Dr. Kim is here. Bye now."), vec!["Dr. Kim is here.", "Bye now."]);
}

#[test]
fn short_tail_is_merged() {
    let c = TextChunker::new(10);
    assert_eq!(c.chunk_text("First sentence here. End"), vec!["First sentence here. End"]);
}

#[test]
fn blank_text_gives_one_empty_chunk() {
    let c = TextChunker::new(10);
    assert_eq!(c.chunk_text("   \n "), vec![""]);
}

#[test]
fn long_run_falls_back_to_comma() {
    let c = TextChunker::with_max_length(1, 10);
    assert_eq!(c.chunk_text("aaaa,bbbbbbbbb"), vec!["aaaa,", "bbbbbbbbb"]);
}

#[test]
fn legacy_chunking_uses_default_bounds() {
    assert_eq!(chunk_text("Hi. Yo.", None), vec!["Hi. Yo."]);
    assert_eq!(chunk_text("One. Two.", Some(4)), vec!["One.", "Two", "."]);
}

#[test]
fn chunking_keeps_every_visible_character() {
    let text = "  Mr. Park went home.  It rained!  Then,  the sun came out... and everyone smiled, e.g. me. ";
    let c = TextChunker::with_max_length(8, 20);
    let chunks = c.chunk_text(text);
    let joined: String = chunks.concat().chars().filter(|c| !c.is_whitespace()).collect();
    let original: String = text.chars().filter(|c| !c.is_whitespace()).collect();
    assert_eq!(joined, original);
}

#[test]
fn saved_text_layout() {
    let lines = vec![vec![vec![1u8, 2]]];
    let bytes = serialize_lines(&lines);
    assert_eq!(bytes, vec![1, 0, 0, 0, 1, 0, 0, 0, 2, 0, 0, 0, 1, 2]);
}

#[test]
fn saved_text_loads_back() {
    let lines = vec![vec![vec![1u8, 2, 3], vec![]], vec![], vec![vec![63u8]]];
    let mut bytes = serialize_lines(&lines);
    assert_eq!(deserialize_lines(&bytes), Some(lines.clone()));
    bytes.extend_from_slice(&[9, 9, 9]);
    assert_eq!(deserialize_lines(&bytes), Some(lines));
}

#[test]
fn damaged_saves_are_refused() {
    assert_eq!(deserialize_lines(&[]), None);
    assert_eq!(deserialize_lines(&[1, 0, 0]), None);
    assert_eq!(deserialize_lines(&[0x11, 0x27, 0, 0]), None);
    assert_eq!(deserialize_lines(&[1, 0, 0, 0, 1, 0, 0, 0, 5, 0, 0, 0, 1]), None);
    assert_eq!(deserialize_lines(&[0, 0, 0, 0]), Some(vec![]));
}

#[test]
fn memo_modes_and_keys() {
    assert_eq!(MemoMode::Insert.next(), MemoMode::Edit);
    assert_eq!(MemoMode::View.next(), MemoMode::Insert);
    assert_eq!(ModeTtsMessage::Edit.text(Language::En), "Edit mode");
    let mut k = MemoKeys::new();
    assert!(k.accepts_chords());
    assert_eq!(k.handle_key(KeyCode::Down, KeyState::Pressed, KeypadSide::Left), Some(TextCommand::Backspace));
    assert_eq!(k.handle_key(KeyCode::Down, KeyState::Pressed, KeypadSide::Right), Some(TextCommand::PushNewline));
    assert_eq!(k.handle_key(KeyCode::Function, KeyState::Pressed, KeypadSide::Left), Some(TextCommand::SwitchMode(MemoMode::Edit)));
    assert_eq!(k.handle_key(KeyCode::Center, KeyState::Pressed, KeypadSide::Left), None);
    assert_eq!(k.handle_key(KeyCode::Left, KeyState::Pressed, KeypadSide::Left), Some(TextCommand::MovePrevWord));
    assert_eq!(k.handle_key(KeyCode::Center, KeyState::Released, KeypadSide::Left), None);
    assert_eq!(k.handle_key(KeyCode::Center, KeyState::Pressed, KeypadSide::Left), None);
    assert_eq!(k.handle_key(KeyCode::Center, KeyState::Released, KeypadSide::Left), Some(TextCommand::Delete));
    assert_eq!(k.handle_key(KeyCode::Function, KeyState::Pressed, KeypadSide::Left), Some(TextCommand::SwitchMode(MemoMode::View)));
    assert_eq!(k.handle_key(KeyCode::Up, KeyState::Pressed, KeypadSide::Left), Some(TextCommand::ScrollUp));
}

#[test]
fn cursor_goes_to_end_of_loaded_text() {
    let lines = vec![vec![vec![1u8]], vec![vec![1u8, 2], vec![3u8, 4, 5]]];
    assert_eq!(end_cursor(&lines), (1, 1, Some(3)));
    assert_eq!(end_cursor(&vec![vec![]]), (0, 0, None));
}

#[test]
fn brf_characters() {
    assert_eq!(cell_to_brf_char(0), ' ');
    assert_eq!(cell_to_brf_char(1), 'A');
    assert_eq!(cell_to_brf_char(0b000010), '1');
    assert_eq!(cell_to_brf_char(0b100000), ',');
    assert_eq!(cell_to_brf_char(0b100001), '*');
    assert_eq!(cell_to_brf_char(0b101110), '!');
    assert_eq!(cell_to_brf_char(0b010110), '6');
    assert_eq!(cell_to_brf_char(0b1111_1111), '=');
    assert_eq!(brf_char_to_cell('a'), 1);
    assert_eq!(brf_char_to_cell('Z'), 0b110101);
    assert_eq!(brf_char_to_cell('~'), 0);
}

#[test]
fn brf_reads_back_every_cell() {
    let mut seen: Vec<char> = Vec::new();
    for cell in 0u8..=255 {
        let m = cell & 0x3f;
        assert_eq!(brf_char_to_cell(cell_to_brf_char(cell)), m);
        assert_eq!(cell_to_brf_char(cell), cell_to_brf_char(m));
        seen.push(cell_to_brf_char(m));
    }
    seen.sort();
    seen.dedup();
    assert_eq!(seen.len(), 64);
}

#[test]
fn brf_text_parses_into_lines_of_words() {
    let lines = parse_brf_to_lines("AB  C\r\n\nK");
    assert_eq!(lines, vec![vec![vec![1, 3], vec![9]], vec![vec![]], vec![vec![5]]]);
    assert_eq!(parse_brf_to_lines(""), vec![vec![Vec::<u8>::new()]]);
    assert_eq!(parse_brf_to_lines("A\n"), vec![vec![vec![1]]]);
}

#[test]
fn cells_write_as_brf() {
    assert_eq!(text_to_brf(&vec![vec![1, 3], vec![], vec![0, 9]]), "AB\n\n C");
    assert_eq!(text_to_brf(&vec![]), "");
}

#[test]
fn cells_split_into_words() {
    assert_eq!(cell_words(&vec![0, 1, 0, 0, 3, 4, 0], 0), vec![vec![1], vec![3, 4]]);
    assert_eq!(text_to_braille_lines(&vec![vec![1, 0, 3], vec![0, 0]], 0), vec![vec![vec![1], vec![3]], vec![vec![]]]);
    assert_eq!(text_to_braille_lines(&vec![], 0), vec![vec![Vec::<u8>::new()]]);
}

#[test]
fn text_lines_follow_str_lines() {
    assert_eq!(text_lines("a\r\nb\n\nc\r"), vec!["a", "b", "", "c\r"]);
    assert_eq!(text_lines(""), Vec::<String>::new());
}

#[test]
fn reader_walks_lines() {
    let mut r = LineReader::new("  first \n\nlast");
    assert_eq!(r.lines, vec!["first", "", "last"]);
    assert_eq!(r.speech(), Some("first".to_string()));
    assert_eq!(r.handle_key(KeyCode::Up), Some(TextCommand::ScrollUp));
    assert_eq!(r.current_line_idx, 0);
    r.handle_key(KeyCode::Down);
    assert_eq!(r.speech(), Some("빈 줄".to_string()));
    r.handle_key(KeyCode::Down);
    r.handle_key(KeyCode::Down);
    assert_eq!(r.current_line_idx, 2);
    assert_eq!(r.handle_key(KeyCode::Menu), None);
}

#[test]
fn decimals() {
    assert_eq!(decimal_string(0), "0");
    assert_eq!(decimal_string(1204), "1204");
    assert_eq!(decimal_string(u64::MAX), "18446744073709551615");
}

#[test]
fn chunks_without_marks_stay_within_the_maximum() {
    let text = "  one two three four five six seven eight nine ten eleven twelve  ";
    let chunks = chunk_text(text, Some(12));
    assert!(chunks.len() >= 2 && chunks.len() <= text.trim().chars().count());
    for c in &chunks {
        assert!(!c.is_empty() && c.chars().count() <= 12);
        assert_eq!(c.trim(), c.as_str());
    }
    assert_eq!(chunk_text("   ", Some(12)), vec![String::new()]);
}

use doggytype::keybinds::{handle_keybinds, KeyCode, KeyEvent};
use doggytype::typing::{count_words, Rate, Score, SpanKind, TypingGame, CURSOR, FORBIDDEN};

fn chars(s: &str) -> Vec<char> {
    s.chars().collect()
}

fn text(v: &[char]) -> String {
    v.iter().collect()
}

fn percent(s: Score) -> f32 {
    ((s.net + s.correct) as f32 / 2f32 * 100f32) / s.typed as f32
}

fn key(code: KeyCode) -> KeyEvent {
    KeyEvent { code, control: false, alt: false, release: false }
}

#[test]
fn scenario_abc_accuracy() {
    let mut g = TypingGame::from_goal(chars("abc"), 1);
    g.type_char('a', 1000);
    assert_eq!(text(&g.current), "a");
    assert_eq!(g.start_time, Some(1000));
    assert_eq!(percent(g.accuracy()), 100.0);

    g.type_char('x', 1100);
    assert_eq!(text(&g.current), "ax");
    let s = g.accuracy();
    assert!(g.mistake_indices.contains(&1));
    assert_eq!(g.mistakes, 1);
    assert_eq!(s, Score { correct: 1, net: 0, typed: 2 });
    assert_eq!(percent(s), 25.0);

    g.backspace();
    assert_eq!(text(&g.current), "a");
    g.type_char('b', 1200);
    assert_eq!(text(&g.current), "ab");
    let s = g.accuracy();
    assert_eq!(g.mistakes, 1);
    assert_eq!(s, Score { correct: 2, net: 1, typed: 2 });
    assert_eq!(percent(s), 75.0);
    assert_eq!(g.start_time, Some(1000));
    assert_eq!(g.end_time, None);
}

#[test]
fn mistakes_persist_after_correction() {
    let mut g = TypingGame::from_goal(chars("hello"), 1);
    g.type_char('h', 0);
    g.type_char('a', 1);
    g.accuracy();
    g.backspace();
    g.type_char('e', 2);
    g.accuracy();
    assert!(g.mistake_indices.contains(&1));
    assert_eq!(g.mistakes, 1);
}

#[test]
fn mistake_counted_once() {
    let mut g = TypingGame::from_goal(chars("ab"), 1);
    g.type_char('x', 0);
    g.accuracy();
    g.accuracy();
    g.backspace();
    g.type_char('y', 1);
    let s = g.accuracy();
    assert_eq!(g.mistakes, 1);
    assert_eq!(s, Score { correct: 0, net: 0, typed: 1 });
}

#[test]
fn reset_clears_round() {
    let mut g = TypingGame::from_goal(chars("ab"), 1);
    g.type_char('x', 5);
    g.type_char('b', 6);
    g.accuracy();
    assert_eq!(g.end_time, Some(6));
    g.reset();
    assert!(g.current.is_empty());
    assert_eq!(g.start_time, None);
    assert_eq!(g.end_time, None);
    assert_eq!(g.mistakes, 0);
    assert!(g.mistake_indices.is_empty());
    assert_eq!(text(&g.goal), "ab");
    let s = g.accuracy();
    assert_eq!(s, Score { correct: 0, net: 0, typed: 0 });
    assert!(percent(s).is_nan());
}

#[test]
fn type_char_is_noop_when_complete() {
    let mut g = TypingGame::from_goal(chars("ab"), 1);
    g.type_char('a', 10);
    assert_eq!(g.end_time, None);
    g.type_char('b', 20);
    assert_eq!(g.current.len(), g.goal.len());
    assert_eq!(g.end_time, Some(20));
    g.type_char('c', 30);
    assert_eq!(text(&g.current), "ab");
    assert_eq!(g.start_time, Some(10));
    assert_eq!(g.end_time, Some(20));
}

#[test]
fn backspace_is_noop_when_complete_or_empty() {
    let mut g = TypingGame::from_goal(chars("ab"), 1);
    g.backspace();
    assert!(g.current.is_empty());
    g.type_char('a', 1);
    g.type_char('b', 2);
    g.backspace();
    g.backspace_word();
    assert_eq!(text(&g.current), "ab");
}

#[test]
fn backspace_word_after_trailing_space() {
    let mut g = TypingGame::from_goal(chars("cat dog bird"), 3);
    for c in "cat dog ".chars() {
        g.type_char(c, 0);
    }
    g.backspace_word();
    assert_eq!(text(&g.current), "cat ");
}

#[test]
fn backspace_word_without_space() {
    let mut g = TypingGame::from_goal(chars("cat dog"), 2);
    for c in "cat".chars() {
        g.type_char(c, 0);
    }
    g.backspace_word();
    assert_eq!(text(&g.current), " ");
}

#[test]
fn backspace_word_mid_word() {
    let mut g = TypingGame::from_goal(chars("cat dog bird"), 3);
    for c in "cat do".chars() {
        g.type_char(c, 0);
    }
    g.backspace_word();
    assert_eq!(text(&g.current), "cat ");
}

#[test]
fn spans_show_mistyped_space() {
    let mut g = TypingGame::from_goal(chars("a b"), 2);
    g.type_char('a', 0);
    g.type_char('x', 1);
    let spans = g.spans();
    assert_eq!(spans.len(), 3);
    assert_eq!(text(&spans[0].text), "a");
    assert_eq!(spans[0].kind, SpanKind::Match);
    assert_eq!(text(&spans[1].text), "x");
    assert_eq!(spans[1].kind, SpanKind::Mismatch);
    assert_eq!(text(&spans[2].text), "b");
    assert_eq!(spans[2].kind, SpanKind::Pending);
}

#[test]
fn curr_spans_show_goal_char_on_mismatch() {
    let mut g = TypingGame::from_goal(chars("ab c"), 2);
    g.type_char('x', 0);
    let spans = g.curr_spans();
    assert_eq!(spans.len(), 1);
    assert_eq!(text(&spans[0].text), "a");
    assert_eq!(spans[0].kind, SpanKind::Mismatch);
}

#[test]
fn spans_of_untouched_goal() {
    let g = TypingGame::from_goal(chars("one two"), 2);
    let spans = g.spans();
    assert_eq!(spans.len(), 1);
    assert_eq!(text(&spans[0].text), "one two");
    assert_eq!(spans[0].kind, SpanKind::Pending);
    assert!(g.cursor_spans().is_empty());
}

#[test]
fn cursor_spans_end_with_cursor() {
    let mut g = TypingGame::from_goal(chars("a b"), 2);
    g.type_char('a', 0);
    g.type_char('_', 1);
    let spans = g.cursor_spans();
    assert_eq!(spans.len(), 3);
    assert_eq!(text(&spans[0].text), "a");
    assert_eq!(spans[0].kind, SpanKind::Match);
    assert_eq!(text(&spans[1].text), " ");
    assert_eq!(spans[1].kind, SpanKind::Mismatch);
    assert_eq!(spans[2].text, vec![CURSOR]);
    assert_eq!(spans[2].kind, SpanKind::Cursor);
}

#[test]
fn wpm_counts_typed_words() {
    let mut g = TypingGame::from_goal(chars("to be or not"), 4);
    for c in "to be o".chars() {
        g.type_char(c, 1000);
    }
    assert_eq!(g.wpm(31000), Rate { words: 3, millis: 30000 });
    assert_eq!(g.wpm(1000), Rate { words: 3, millis: 0 });
    assert_eq!(g.end_time, None);
}

#[test]
fn final_wpm_uses_word_target() {
    let mut g = TypingGame::from_goal(chars("ab cd"), 2);
    for (t, c) in "ab cd".chars().enumerate() {
        g.type_char(c, 1000 + 15000 * t as u64);
    }
    assert_eq!(g.final_wpm(), Rate { words: 2, millis: 60000 });
}

#[test]
fn count_words_splits_on_any_whitespace() {
    assert_eq!(count_words(&chars("")), 0);
    assert_eq!(count_words(&chars("   ")), 0);
    assert_eq!(count_words(&chars("one")), 1);
    assert_eq!(count_words(&chars("  one\ttwo\nthree  ")), 3);
}

#[test]
fn new_draws_clean_goal() {
    let g = TypingGame::new(5).unwrap();
    assert!(!g.goal.contains(&FORBIDDEN));
    assert_eq!(count_words(&g.goal), 5);
    assert_eq!(g.goal.iter().filter(|c| **c == ' ').count(), 4);
    assert_ne!(g.goal[0], ' ');
    assert_ne!(*g.goal.last().unwrap(), ' ');
    assert_eq!(g.word_count, 5);
    assert!(g.current.is_empty());
    assert_eq!(g.mistakes, 0);
}

#[test]
fn new_goal_keeps_word_target() {
    let mut g = TypingGame::from_goal(chars("x"), 4);
    assert!(g.new_goal());
    assert!(!g.goal.contains(&FORBIDDEN));
    assert_eq!(count_words(&g.goal), 4);
}

#[test]
fn keybinds_quit_and_release() {
    let mut g = TypingGame::from_goal(chars("abc"), 1);
    let quit = KeyEvent { code: KeyCode::Char('c'), control: true, alt: false, release: false };
    assert_eq!(handle_keybinds(&mut g, &quit, 0, false), Err(()));
    assert!(g.current.is_empty());
    let released = KeyEvent { code: KeyCode::Char('a'), control: false, alt: false, release: true };
    assert_eq!(handle_keybinds(&mut g, &released, 0, true), Ok(()));
    assert!(g.current.is_empty());
    assert_eq!(handle_keybinds(&mut g, &released, 0, false), Ok(()));
    assert_eq!(text(&g.current), "a");
}

#[test]
fn keybinds_edit_keys() {
    let mut g = TypingGame::from_goal(chars("ab cd"), 2);
    for c in "ab c".chars() {
        handle_keybinds(&mut g, &key(KeyCode::Char(c)), 7, false).unwrap();
    }
    assert_eq!(text(&g.current), "ab c");
    let alt_back = KeyEvent { code: KeyCode::Backspace, control: false, alt: true, release: false };
    handle_keybinds(&mut g, &alt_back, 8, false).unwrap();
    assert_eq!(text(&g.current), "ab ");
    handle_keybinds(&mut g, &key(KeyCode::Backspace), 9, false).unwrap();
    assert_eq!(text(&g.current), "ab");
    handle_keybinds(&mut g, &key(KeyCode::Other), 9, false).unwrap();
    assert_eq!(text(&g.current), "ab");
    handle_keybinds(&mut g, &key(KeyCode::Esc), 10, false).unwrap();
    assert!(g.current.is_empty());
    assert_eq!(g.start_time, None);
    assert_eq!(text(&g.goal), "ab cd");
}

#[test]
fn keybinds_tab_starts_new_round() {
    let mut g = TypingGame::from_goal(chars("ab"), 3);
    handle_keybinds(&mut g, &key(KeyCode::Char('x')), 1, false).unwrap();
    g.accuracy();
    handle_keybinds(&mut g, &key(KeyCode::Tab), 2, false).unwrap();
    assert!(g.current.is_empty());
    assert_eq!(g.mistakes, 0);
    assert_eq!(g.start_time, None);
    assert_eq!(count_words(&g.goal), 3);
}

#[test]
fn new_with_no_words_has_empty_goal() {
    let g = TypingGame::new(0).unwrap();
    assert!(g.goal.is_empty());
}

#[test]
fn count_words_on_unicode_spaces() {
    assert_eq!(count_words(&chars("a\u{a0}b\u{3000}c\u{2009}d")), 4);
    assert_eq!(count_words(&chars("a\u{ba}b")), 1);
}

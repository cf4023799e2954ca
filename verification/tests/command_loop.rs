use file_explorer::input::{InputState, Key, Outcome};

fn type_chars(st: &mut InputState, s: &str) {
    for c in s.chars() {
        assert_eq!(st.step(Key::Char(c)), Outcome::Continue);
    }
}

fn history_strings(st: &InputState) -> Vec<String> {
    st.history.iter().map(|v| v.iter().collect()).collect()
}

#[test]
fn q_on_empty_buffer_terminates() {
    let mut st = InputState::new(8, 24);
    assert_eq!(st.step(Key::Char('q')), Outcome::Terminated);
    assert_eq!(st.input_line(), ":");
}

#[test]
fn q_after_other_characters_is_appended() {
    let mut st = InputState::new(8, 24);
    type_chars(&mut st, "aq");
    assert_eq!(st.input_line(), ":aq");
}

#[test]
fn escape_always_terminates() {
    let mut st = InputState::new(8, 24);
    assert_eq!(st.step(Key::Escape), Outcome::Terminated);
    let mut st = InputState::new(8, 24);
    type_chars(&mut st, "half a line");
    assert_eq!(st.step(Key::Escape), Outcome::Terminated);
}

#[test]
fn backspace_removes_the_last_character() {
    let mut st = InputState::new(8, 24);
    type_chars(&mut st, "ab");
    assert_eq!(st.step(Key::Backspace), Outcome::Continue);
    assert_eq!(st.input_line(), ":a");
}

#[test]
fn backspace_on_empty_buffer_is_a_no_op() {
    let mut st = InputState::new(8, 24);
    assert_eq!(st.step(Key::Backspace), Outcome::Continue);
    assert_eq!(st.input_line(), ":");
}

#[test]
fn quit_command_terminates() {
    // A buffer cannot start with `q` by typing (the first `q` already
    // terminates), so the `quit` transition is driven on the state
    // directly.
    let mut st = InputState::new(8, 24);
    st.buffer = "quit".chars().collect();
    assert_eq!(st.step(Key::Enter), Outcome::Terminated);
    assert!(st.history.is_empty());
}

#[test]
fn cd_up_command_terminates() {
    let mut st = InputState::new(8, 24);
    type_chars(&mut st, "cd ..");
    assert_eq!(st.step(Key::Enter), Outcome::Terminated);

    let mut st = InputState::new(8, 24);
    type_chars(&mut st, "cd   ..");
    assert_eq!(st.step(Key::Enter), Outcome::Terminated);
}

#[test]
fn near_misses_of_the_commands_are_submitted() {
    for line in ["quit ", "Quit", "cd..", "cd x ..", "cd .. now"] {
        let mut st = InputState::new(8, 24);
        st.buffer = line.chars().collect();
        assert_eq!(st.step(Key::Enter), Outcome::Submitted, "{:?}", line);
        assert_eq!(history_strings(&st), vec![line.to_string()]);
    }
}

#[test]
fn submission_echoes_and_clears_the_buffer() {
    let mut st = InputState::new(8, 24);
    type_chars(&mut st, "hello");
    assert_eq!(st.step(Key::Enter), Outcome::Submitted);
    assert_eq!(st.input_line(), ":");
    assert_eq!(st.echo_line(), "hello");
    assert_eq!(history_strings(&st), vec!["hello".to_string()]);
}

#[test]
fn echo_is_empty_before_any_submission() {
    let st = InputState::new(8, 24);
    assert_eq!(st.echo_line(), "");
}

#[test]
fn history_is_bounded_and_evicts_the_oldest() {
    let capacity = 3;
    let mut st = InputState::new(capacity, 24);
    let lines: Vec<String> = (0..capacity + 5).map(|i| format!("line{}", i)).collect();
    for line in &lines {
        type_chars(&mut st, line);
        assert_eq!(st.step(Key::Enter), Outcome::Submitted);
        assert!(st.history.len() <= capacity);
    }
    let recorded = history_strings(&st);
    assert_eq!(st.history.len(), capacity);
    assert!(!recorded.contains(&"line0".to_string()));
    assert!(recorded.contains(&"line7".to_string()));
    assert_eq!(recorded, vec!["line5".to_string(), "line6".to_string(), "line7".to_string()]);
    assert_eq!(st.echo_line(), "line7");
}

#[test]
fn screen_rows_are_fixed_at_startup() {
    let st = InputState::new(8, 24);
    assert_eq!(st.input_row, 23);
    assert_eq!(st.output_row, 22);
    let tiny = InputState::new(8, 1);
    assert_eq!(tiny.input_row, 0);
    assert_eq!(tiny.output_row, 0);
}

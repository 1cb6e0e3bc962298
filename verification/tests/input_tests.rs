use kubetui::ansi::Modifier;
use kubetui::ansi::Span;
use kubetui::ansi::Spans;
use kubetui::ansi::Style;
use kubetui::input::Cursor;
use kubetui::input::InputForm;

#[test]
fn move_forward() {
    let mut cursor = Cursor::new(0);
    cursor.forward(1);

    assert_eq!(cursor.pos(), 1);
}

#[test]
fn move_back() {
    let mut cursor = Cursor::new(0);
    cursor.forward(1);
    cursor.forward(2);
    cursor.back(3);

    assert_eq!(cursor.pos(), 1);
}

#[test]
fn push_char() {
    let mut form = InputForm::new(0);

    let input = "test";

    input.chars().for_each(|c| form.insert_char(c, 0));

    assert_eq!(input, form.content());
}

#[test]
fn insert_char() {
    let mut form = InputForm::new(0);

    let input = "test";

    input.chars().for_each(|c| form.insert_char(c, 0));

    form.back_cursor(0);

    form.insert_char('a', 0);

    assert_eq!("tesat", form.content());

    form.forward_cursor(0);
    form.forward_cursor(0);

    form.insert_char('b', 0);
    assert_eq!("tesatb", form.content());
}

#[test]
fn remove_char_deletes_before_cursor() {
    let mut form = InputForm::new(0);
    "abc".chars().for_each(|c| form.insert_char(c, 0));
    form.back_cursor(0);
    form.remove_char(0);
    assert_eq!("ac", form.content());
}

#[test]
fn edits_make_the_cursor_visible_and_restart_its_timer() {
    let mut form = InputForm::new(0);
    form.insert_char('a', 100);
    // let the blink interval elapse so the cursor would hide on the next tick
    form.update_tick(700);
    form.insert_char('b', 701);
    assert_eq!(
        InputForm::render_content(form.content(), form.cursor()),
        Spans(vec![
            Span::raw("ab".to_string()),
            Span::styled(
                " ".to_string(),
                Style::default().add_modifier(Modifier::Reversed)
            )
        ])
    );
}

#[test]
fn render_content_empty() {
    let form = InputForm::new(0);

    assert_eq!(
        InputForm::render_content(form.content(), form.cursor()),
        Spans(vec![Span::styled(
            " ".to_string(),
            Style::default().add_modifier(Modifier::Reversed)
        )])
    );
}

#[test]
fn render_content_add_char() {
    let mut form = InputForm::new(0);

    form.insert_char('a', 0);
    form.insert_char('b', 0);

    assert_eq!(
        InputForm::render_content(form.content(), form.cursor()),
        Spans(vec![
            Span::raw("ab".to_string()),
            Span::styled(
                " ".to_string(),
                Style::default().add_modifier(Modifier::Reversed)
            )
        ])
    );
}

#[test]
fn render_content_add_char_and_cursor_back() {
    let mut form = InputForm::new(0);

    form.insert_char('a', 0);
    form.insert_char('b', 0);
    form.back_cursor(0);

    assert_eq!(
        InputForm::render_content(form.content(), form.cursor()),
        Spans(vec![
            Span::raw("a".to_string()),
            Span::styled(
                "b".to_string(),
                Style::default().add_modifier(Modifier::Reversed)
            )
        ])
    );
}

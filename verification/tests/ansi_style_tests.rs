use kubetui::ansi::Color;
use kubetui::ansi::Modifier;
use kubetui::ansi::Style;
use kubetui::ansi::color_3_4bit;
use kubetui::ansi::generate_style_from_ansi_color;

#[test]
fn color_3_4bit_fg() {
    assert_eq!(
        color_3_4bit(Style::default(), 35),
        Style::default().fg(Color::Magenta)
    );
}

#[test]
fn color_3_4bit_fg_bright() {
    assert_eq!(
        color_3_4bit(Style::default(), 95),
        Style::default().fg(Color::LightMagenta)
    );
}

#[test]
fn color_3_4bit_bg() {
    assert_eq!(
        color_3_4bit(Style::default(), 45),
        Style::default().bg(Color::Magenta)
    );
}

#[test]
fn color_3_4bit_bg_bright() {
    assert_eq!(
        color_3_4bit(Style::default(), 105),
        Style::default().bg(Color::LightMagenta)
    );
}

#[test]
fn color_3_4bit_bold() {
    assert_eq!(
        color_3_4bit(Style::default(), 1),
        Style::default().add_modifier(Modifier::Bold)
    );
}

#[test]
fn generate_style_color_3_4bit_reset() {
    assert_eq!(generate_style_from_ansi_color("0"), Style::reset());
}

#[test]
fn generate_style_color_8bit_fg() {
    assert_eq!(
        generate_style_from_ansi_color("38;5;100"),
        Style::default().fg(Color::Indexed(100))
    );
}

#[test]
fn generate_style_color_8bit_bg() {
    assert_eq!(
        generate_style_from_ansi_color("48;5;100"),
        Style::default().bg(Color::Indexed(100))
    );
}

#[test]
fn generate_style_color_8bit_fg_bold() {
    assert_eq!(
        generate_style_from_ansi_color("1;38;5;100"),
        Style::default().fg(Color::Indexed(100)).add_modifier(Modifier::Bold)
    );
    assert_eq!(
        generate_style_from_ansi_color("38;5;100;1"),
        Style::default().fg(Color::Indexed(100)).add_modifier(Modifier::Bold)
    );
}

#[test]
fn generate_style_color_24bit_fg() {
    assert_eq!(
        generate_style_from_ansi_color("38;2;10;10;10"),
        Style::default().fg(Color::Rgb(10, 10, 10))
    );
}

#[test]
fn generate_style_color_24bit_bg() {
    assert_eq!(
        generate_style_from_ansi_color("48;2;10;10;10"),
        Style::default().bg(Color::Rgb(10, 10, 10))
    );
}

#[test]
fn generate_style_color_24bit_bold() {
    assert_eq!(
        generate_style_from_ansi_color("1;38;2;10;10;10"),
        Style::default().fg(Color::Rgb(10, 10, 10)).add_modifier(Modifier::Bold)
    );
    assert_eq!(
        generate_style_from_ansi_color("38;2;10;10;10;1"),
        Style::default().fg(Color::Rgb(10, 10, 10)).add_modifier(Modifier::Bold)
    );
}

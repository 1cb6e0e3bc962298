use kubetui::ansi::Color;
use kubetui::ansi::Modifier;
use kubetui::ansi::Span;
use kubetui::ansi::Spans;
use kubetui::ansi::Style;
use kubetui::ansi::generate_spans;
use kubetui::ansi::wrap;

fn raw(s: &str) -> Span {
    Span::raw(s.to_string())
}

fn styled(s: &str, style: Style) -> Span {
    Span::styled(s.to_string(), style)
}

#[test]
fn spans() {
    let text = vec![
        "> taskbox@0.1.0 start /app",
        "> react-scripts start",
        "",
        "\u{1b}[34mℹ\u{1b}[39m \u{1b}[90m｢wds｣\u{1b}[39m: Project is running at http://10.1.157.9/",
        "\u{1b}[34mℹ\u{1b}[39m \u{1b}[90m｢wds｣\u{1b}[39m: webpack output is served from",
        "\u{1b}[34mℹ\u{1b}[39m \u{1b}[90m｢wds｣\u{1b}[39m: Content not from webpack is served from /app/public",
        "\u{1b}[34mℹ\u{1b}[39m \u{1b}[90m｢wds｣\u{1b}[39m: 404s will fallback to /",
        "Starting the development server...",
        "",
        "Compiled successfully!",
        "",
        "You can now view taskbox in the browser.",
        "",
        "  Local:            http://localhost:3000",
        "  On Your Network:  http://10.1.157.9:3000",
        "",
        "Note that the development build is not optimized.",
        "To create a production build, use npm run build.",
    ];

    let wrapped = wrap(&text.iter().cloned().map(String::from).collect(), 100);

    let wds_line = |tail: &str| {
        Spans(vec![
            styled("ℹ", Style::default().fg(Color::Blue)),
            styled(" ", Style::default().fg(Color::Reset)),
            styled("｢wds｣", Style::default().fg(Color::DarkGray)),
            styled(tail, Style::default().fg(Color::Reset)),
        ])
    };

    let expected = vec![
        Spans(vec![raw("> taskbox@0.1.0 start /app")]),
        Spans(vec![raw("> react-scripts start")]),
        Spans(vec![raw("")]),
        wds_line(": Project is running at http://10.1.157.9/"),
        wds_line(": webpack output is served from"),
        wds_line(": Content not from webpack is served from /app/public"),
        wds_line(": 404s will fallback to /"),
        Spans(vec![raw("Starting the development server...")]),
        Spans(vec![raw("")]),
        Spans(vec![raw("Compiled successfully!")]),
        Spans(vec![raw("")]),
        Spans(vec![raw("You can now view taskbox in the browser.")]),
        Spans(vec![raw("")]),
        Spans(vec![raw("  Local:            http://localhost:3000")]),
        Spans(vec![raw("  On Your Network:  http://10.1.157.9:3000")]),
        Spans(vec![raw("")]),
        Spans(vec![raw("Note that the development build is not optimized.")]),
        Spans(vec![raw("To create a production build, use npm run build.")]),
    ];

    let result = generate_spans(&wrapped);
    for (i, l) in result.iter().enumerate() {
        assert_eq!(*l, expected[i]);
    }
}

#[test]
fn generate_spans_color_3_4bit_fg() {
    let text = vec!["hoge\u{1b}[33mhoge\u{1b}[39m".to_string()];

    assert_eq!(
        generate_spans(&text),
        vec![Spans(vec![
            raw("hoge"),
            styled("hoge", Style::default().fg(Color::Yellow)),
            styled("", Style::default().fg(Color::Reset)),
        ])]
    )
}

#[test]
fn generate_spans_color_3_4bit_fg_bold() {
    let text = vec!["\u{1b}[1;33mhoge\u{1b}[39m".to_string()];

    assert_eq!(
        generate_spans(&text),
        vec![Spans(vec![
            styled(
                "hoge",
                Style::default().fg(Color::Yellow).add_modifier(Modifier::Bold)
            ),
            styled("", Style::default().fg(Color::Reset)),
        ])]
    )
}

#[test]
fn generate_spans_color_8bit_fg() {
    let text = vec!["\u{1b}[38;5;33mhoge\u{1b}[39m".to_string()];

    assert_eq!(
        generate_spans(&text),
        vec![Spans(vec![
            styled("hoge", Style::default().fg(Color::Indexed(33))),
            styled("", Style::default().fg(Color::Reset)),
        ])]
    )
}

#[test]
fn generate_spans_color_8bit_fg_bold() {
    let text = vec!["\u{1b}[1;38;5;33mhoge\u{1b}[39m".to_string()];

    assert_eq!(
        generate_spans(&text),
        vec![Spans(vec![
            styled(
                "hoge",
                Style::default().fg(Color::Indexed(33)).add_modifier(Modifier::Bold)
            ),
            styled("", Style::default().fg(Color::Reset)),
        ])]
    )
}

#[test]
fn generate_spans_color_24bit_fg() {
    let text = vec!["\u{1b}[38;2;33;10;10mhoge\u{1b}[39m".to_string()];

    assert_eq!(
        generate_spans(&text),
        vec![Spans(vec![
            styled("hoge", Style::default().fg(Color::Rgb(33, 10, 10))),
            styled("", Style::default().fg(Color::Reset)),
        ])]
    )
}

#[test]
fn generate_spans_color_24bit_fg_bold() {
    let text = vec!["\u{1b}[1;38;2;33;10;10mhoge\u{1b}[39m".to_string()];

    assert_eq!(
        generate_spans(&text),
        vec![Spans(vec![
            styled(
                "hoge",
                Style::default().fg(Color::Rgb(33, 10, 10)).add_modifier(Modifier::Bold)
            ),
            styled("", Style::default().fg(Color::Reset)),
        ])]
    )
}

#[test]
fn generate_spans_color_3_4bit_bg() {
    let text = vec!["\u{1b}[43mhoge\u{1b}[49m".to_string()];

    assert_eq!(
        generate_spans(&text),
        vec![Spans(vec![
            styled("hoge", Style::default().bg(Color::Yellow)),
            styled("", Style::default().bg(Color::Reset)),
        ])]
    )
}

#[test]
fn generate_spans_color_3_4bit_bg_bold() {
    let text = vec!["\u{1b}[1;43mhoge\u{1b}[49m".to_string()];

    assert_eq!(
        generate_spans(&text),
        vec![Spans(vec![
            styled(
                "hoge",
                Style::default().bg(Color::Yellow).add_modifier(Modifier::Bold)
            ),
            styled("", Style::default().bg(Color::Reset)),
        ])]
    );

    let text = vec!["\u{1b}[43;1mhoge\u{1b}[49m".to_string()];

    assert_eq!(
        generate_spans(&text),
        vec![Spans(vec![
            styled(
                "hoge",
                Style::default().bg(Color::Yellow).add_modifier(Modifier::Bold)
            ),
            styled("", Style::default().bg(Color::Reset)),
        ])]
    );
}

#[test]
fn generate_spans_color_8bit_bg() {
    let text = vec!["\u{1b}[48;5;33mhoge\u{1b}[49m".to_string()];

    assert_eq!(
        generate_spans(&text),
        vec![Spans(vec![
            styled("hoge", Style::default().bg(Color::Indexed(33))),
            styled("", Style::default().bg(Color::Reset)),
        ])]
    );
}

#[test]
fn generate_spans_color_8bit_bg_bold() {
    let text = vec!["\u{1b}[1;48;5;33mhoge\u{1b}[49m".to_string()];

    assert_eq!(
        generate_spans(&text),
        vec![Spans(vec![
            styled(
                "hoge",
                Style::default().bg(Color::Indexed(33)).add_modifier(Modifier::Bold)
            ),
            styled("", Style::default().bg(Color::Reset)),
        ])]
    );

    let text = vec!["\u{1b}[48;5;33;1mhoge\u{1b}[49m".to_string()];

    assert_eq!(
        generate_spans(&text),
        vec![Spans(vec![
            styled(
                "hoge",
                Style::default().bg(Color::Indexed(33)).add_modifier(Modifier::Bold)
            ),
            styled("", Style::default().bg(Color::Reset)),
        ])]
    );
}

#[test]
fn generate_spans_color_24bit_bg() {
    let text = vec!["\u{1b}[48;2;33;10;10mhoge\u{1b}[49m".to_string()];

    assert_eq!(
        generate_spans(&text),
        vec![Spans(vec![
            styled("hoge", Style::default().bg(Color::Rgb(33, 10, 10))),
            styled("", Style::default().bg(Color::Reset)),
        ])]
    );
}

#[test]
fn generate_spans_color_24bit_bg_bold() {
    let text = vec!["\u{1b}[1;48;2;33;10;10mhoge\u{1b}[49m".to_string()];

    assert_eq!(
        generate_spans(&text),
        vec![Spans(vec![
            styled(
                "hoge",
                Style::default().bg(Color::Rgb(33, 10, 10)).add_modifier(Modifier::Bold)
            ),
            styled("", Style::default().bg(Color::Reset)),
        ])]
    );

    let text = vec!["\u{1b}[48;2;33;10;10;1mhoge\u{1b}[49m".to_string()];

    assert_eq!(
        generate_spans(&text),
        vec![Spans(vec![
            styled(
                "hoge",
                Style::default().bg(Color::Rgb(33, 10, 10)).add_modifier(Modifier::Bold)
            ),
            styled("", Style::default().bg(Color::Reset)),
        ])]
    );
}

#[test]
fn generate_style_color_24bit_rainbow() {
    let rainbow = vec!["\u{1b}[48;2;0;0;0m \u{1b}[48;2;1;0;0m \u{1b}[48;2;2;0;0m \u{1b}[48;2;3;0;0m \u{1b}[48;2;4;0;0m \u{1b}[48;2;5;0;0m \u{1b}[48;2;6;0;0m \u{1b}[48;2;7;0;0m \u{1b}[48;2;8;0;0m \u{1b}[48;2;9;0;0m \u{1b}[48;2;10;0;0m \u{1b}[0m".to_string()];

    let wrapped = wrap(&rainbow, 3);

    println!("{:?}", wrapped);

    assert_eq!(
        generate_spans(&wrapped),
        vec![
            Spans(vec![
                styled(" ", Style::default().bg(Color::Rgb(0, 0, 0))),
                styled(" ", Style::default().bg(Color::Rgb(1, 0, 0))),
                styled(" ", Style::default().bg(Color::Rgb(2, 0, 0)))
            ]),
            Spans(vec![
                styled(" ", Style::default().bg(Color::Rgb(3, 0, 0))),
                styled(" ", Style::default().bg(Color::Rgb(4, 0, 0))),
                styled(" ", Style::default().bg(Color::Rgb(5, 0, 0)))
            ]),
            Spans(vec![
                styled(" ", Style::default().bg(Color::Rgb(6, 0, 0))),
                styled(" ", Style::default().bg(Color::Rgb(7, 0, 0))),
                styled(" ", Style::default().bg(Color::Rgb(8, 0, 0)))
            ]),
            Spans(vec![
                styled(" ", Style::default().bg(Color::Rgb(9, 0, 0))),
                styled(" ", Style::default().bg(Color::Rgb(10, 0, 0))),
                styled("", Style::reset())
            ]),
        ]
    );
}

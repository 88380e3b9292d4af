use extra_widgets::style::{ALL_MODIFIERS, BOLD, ITALIC, UNDERLINED};
use extra_widgets::{
    Color, DisplayLine, Indicator, LineIndicators, ListItem, Separator, Span, Spans, Style, Text,
};

#[test]
fn idx_or_last_marks_one_line() {
    let ind = Indicator::IdxOrLast(5, "x");
    let short: Vec<&str> = (0..3).map(|i| ind.fill_char(i, 3)).collect();
    assert_eq!(short, [" ", " ", "x"]);
    let long: Vec<&str> = (0..10).map(|i| ind.fill_char(i, 10)).collect();
    assert_eq!(long, [" ", " ", " ", " ", " ", "x", " ", " ", " ", " "]);
    let exact: Vec<&str> = (0..6).map(|i| ind.fill_char(i, 6)).collect();
    assert_eq!(exact, [" ", " ", " ", " ", " ", "x"]);
}

#[test]
fn char_marks_every_line() {
    let ind = Indicator::Char("|");
    for i in 0..4 {
        assert_eq!(ind.fill_char(i, 4), "|");
    }
}

#[test]
fn first_line_marks_the_first() {
    let ind = Indicator::FirstLine(">");
    let got: Vec<&str> = (0..3).map(|i| ind.fill_char(i, 3)).collect();
    assert_eq!(got, [">", " ", " "]);
}

#[test]
fn last_line_marks_the_last() {
    let ind = Indicator::LastLine("<");
    let got: Vec<&str> = (0..3).map(|i| ind.fill_char(i, 3)).collect();
    assert_eq!(got, [" ", " ", "<"]);
    assert_eq!(ind.fill_char(0, 1), "<");
}

#[test]
fn indicators_of_an_item_without_lines() {
    assert_eq!(Indicator::LastLine("<").fill_char(0, 0), " ");
    assert_eq!(Indicator::IdxOrLast(0, "x").fill_char(0, 0), "x");
    assert_eq!(Indicator::IdxOrLast(2, "x").fill_char(0, 0), " ");
    assert_eq!(Indicator::FirstLine(">").fill_char(0, 0), ">");
}

#[test]
fn default_indicator_is_blank() {
    assert_eq!(Indicator::default(), Indicator::Char(" "));
    let both = LineIndicators::default();
    assert_eq!(both.left, Indicator::Char(" "));
    assert_eq!(both.right, Indicator::Char(" "));
}

#[test]
fn line_indicators_set_one_side() {
    let li = LineIndicators::default().set_left(Indicator::Char(">"));
    assert_eq!(li.left, Indicator::Char(">"));
    assert_eq!(li.right, Indicator::Char(" "));
    let li = li.set_right(Indicator::LastLine("<"));
    assert_eq!(li.left, Indicator::Char(">"));
    assert_eq!(li.right, Indicator::LastLine("<"));
}

#[test]
fn list_item_builders() {
    let it = ListItem::new(Text::raw("a\nb\nc"));
    assert_eq!(it.height(), 3);
    assert_eq!(it.style, Style::default());
    assert_eq!(it.indicators, LineIndicators::default());
    let style = Style::default().fg(Color::Green);
    let ind = LineIndicators::default().set_left(Indicator::Char("*"));
    let it = it.style(style).indicators(ind);
    assert_eq!(it.style, style);
    assert_eq!(it.indicators, ind);
    assert_eq!(it.height(), 3);
    assert_eq!(ListItem::new(Text::default()).height(), 0);
}

#[test]
fn text_raw_splits_lines() {
    let t = Text::raw("a\nb\nc");
    assert_eq!(t.height(), 3);
    assert_eq!(t.lines, [Spans::raw("a"), Spans::raw("b"), Spans::raw("c")]);
    assert_eq!(Text::raw("one").lines, [Spans::raw("one")]);
    assert_eq!(Text::raw("").height(), 0);
    assert_eq!(Text::raw("a\n").lines, [Spans::raw("a")]);
    assert_eq!(Text::raw("a\n\nb").lines, [Spans::raw("a"), Spans::raw(""), Spans::raw("b")]);
    assert_eq!(Text::raw("a\r\nb").lines, [Spans::raw("a"), Spans::raw("b")]);
    assert_eq!(Text::default().height(), 0);
}

#[test]
fn text_from_lines_keeps_them() {
    let lines = vec![Spans::raw("x"), Spans::from_span(Span::styled("y", Style::default().fg(Color::Red)))];
    let t = Text::from_lines(lines.clone());
    assert_eq!(t.lines, lines);
    assert_eq!(t.height(), 2);
}

#[test]
fn spans_hold_runs() {
    let s = Spans::raw("abc");
    assert_eq!(s.0.len(), 1);
    assert_eq!(s.0[0].content, "abc");
    assert_eq!(s.0[0].style, Style::default());
    let style = Style::default().bg(Color::Blue);
    let s = Spans::from_span(Span::styled("q", style));
    assert_eq!(s.0, [Span { content: String::from("q"), style }]);
    assert_eq!(Span::raw("z"), Span { content: String::from("z"), style: Style::default() });
}

#[test]
fn style_patch_lets_set_fields_win() {
    let base = Style::default().fg(Color::Red).bg(Color::Blue);
    let over = Style::default().bg(Color::Green);
    let got = base.patch(over);
    assert_eq!(got.fg, Some(Color::Red));
    assert_eq!(got.bg, Some(Color::Green));
    assert_eq!(base.patch(Style::default()), base);
    assert_eq!(Style::default().patch(base), base);
}

#[test]
fn style_patch_merges_modifiers() {
    let base = Style::default().add_modifier(BOLD | ITALIC);
    let over = Style::default().add_modifier(UNDERLINED).remove_modifier(ITALIC);
    let got = base.patch(over);
    assert_eq!(got.add_modifier, BOLD | UNDERLINED);
    assert_eq!(got.sub_modifier, ITALIC);
    let back = got.patch(Style::default().add_modifier(ITALIC));
    assert_eq!(back.add_modifier, BOLD | UNDERLINED | ITALIC);
    assert_eq!(back.sub_modifier, 0);
}

#[test]
fn style_patch_agrees_with_tui() {
    fn to_tui(s: Style) -> tui::style::Style {
        let color = |c: Option<Color>| {
            c.map(|c| match c {
                Color::Red => tui::style::Color::Red,
                Color::Blue => tui::style::Color::Blue,
                Color::Rgb(r, g, b) => tui::style::Color::Rgb(r, g, b),
                _ => tui::style::Color::Reset,
            })
        };
        tui::style::Style {
            fg: color(s.fg),
            bg: color(s.bg),
            add_modifier: tui::style::Modifier::from_bits_truncate(s.add_modifier),
            sub_modifier: tui::style::Modifier::from_bits_truncate(s.sub_modifier),
        }
    }
    let styles = [
        Style::default(),
        Style::reset(),
        Style::default().fg(Color::Red),
        Style::default().bg(Color::Blue).add_modifier(BOLD),
        Style::default().fg(Color::Rgb(1, 2, 3)).remove_modifier(BOLD | ITALIC),
        Style::default().add_modifier(UNDERLINED).remove_modifier(BOLD),
    ];
    for a in styles {
        for b in styles {
            assert_eq!(to_tui(a.patch(b)), to_tui(a).patch(to_tui(b)));
        }
    }
    assert_eq!(to_tui(Style::reset()), tui::style::Style::reset());
    assert_eq!(to_tui(Style::default()), tui::style::Style::default());
}

#[test]
fn style_reset_clears_everything() {
    let r = Style::reset();
    assert_eq!(r.fg, Some(Color::Reset));
    assert_eq!(r.bg, Some(Color::Reset));
    assert_eq!(r.add_modifier, 0);
    assert_eq!(r.sub_modifier, ALL_MODIFIERS);
}

#[test]
fn separator_starts_from_the_default_background() {
    let sep = Separator::new(3, Style::default());
    assert_eq!(sep.curr_style, Style::default());
    assert_eq!(sep.default_style, Style::default());
    assert_eq!(sep.width, 3);

    let sep = Separator::new(3, Style::default().bg(Color::Blue).fg(Color::Red));
    let init = Style::reset().bg(Color::Blue).fg(Color::Blue);
    assert_eq!(sep.curr_style, init);
    assert_eq!(sep.default_style, init);
}

#[test]
fn separator_cycles_colors() {
    let mut sep = Separator::new(2, Style::default().bg(Color::Black));
    sep.cycle_color(Some(Color::Red));
    assert_eq!(sep.curr_style.bg, Some(Color::Black));
    assert_eq!(sep.curr_style.fg, Some(Color::Red));
    sep.cycle_color(None);
    assert_eq!(sep.curr_style.bg, Some(Color::Red));
    assert_eq!(sep.curr_style.fg, None);
    sep.cycle_color(Some(Color::Green));
    assert_eq!(sep.curr_style.bg, None);
    assert_eq!(sep.curr_style.fg, Some(Color::Green));
    sep.cycle_default();
    assert_eq!(sep.curr_style.bg, Some(Color::Green));
    assert_eq!(sep.curr_style.fg, Some(Color::Black));
    assert_eq!(sep.default_style.bg, Some(Color::Black));
}

#[test]
fn separator_line_is_a_run_of_half_blocks() {
    let mut sep = Separator::new(5, Style::default());
    sep.cycle_color(Some(Color::Red));
    let line = sep.display_line(true);
    assert_eq!(line.line, Spans::raw(&tui::symbols::bar::HALF.repeat(5)));
    assert_eq!(line.line.0[0].content.chars().count(), 5);
    assert!(line.must_display);
    assert_eq!(line.style, sep.curr_style);
    assert_eq!(line.left_indicator, Spans::raw(tui::symbols::bar::HALF));
    assert_eq!(line.right_indicator, Spans::raw(tui::symbols::bar::HALF));
    assert!(!sep.display_line(false).must_display);
    assert_eq!(Separator::new(0, Style::default()).display_line(false).line, Spans::raw(""));
}

#[test]
fn filler_is_blank_and_unflagged() {
    let f = DisplayLine::filler("");
    assert_eq!(f.style, Style::default());
    assert_eq!(f.line, Spans::raw(""));
    assert!(!f.must_display);
    assert_eq!(f.left_indicator, Spans::raw(""));
    assert_eq!(f.right_indicator, Spans::raw(""));
    assert_eq!(DisplayLine::filler("~").line, Spans::raw("~"));
}

#[test]
fn count_lines_adds_the_heights() {
    let items = vec![
        ListItem::new(Text::raw("a\nb\nc")),
        ListItem::new(Text::default()),
        ListItem::new(Text::raw("d")),
    ];
    assert_eq!(extra_widgets::list_item::count_lines(&items), Some(4));
    assert_eq!(extra_widgets::list_item::count_lines(&Vec::new()), Some(0));
}

#[test]
fn text_from_strings_makes_plain_lines() {
    let t = Text::from_strings(vec![String::from("a"), String::from(""), String::from("b\nc")]);
    assert_eq!(t.lines, [Spans::raw("a"), Spans::raw(""), Spans::raw("b\nc")]);
    assert_eq!(Text::from_strings(Vec::new()), Text::default());
}

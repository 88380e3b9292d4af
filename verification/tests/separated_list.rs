use extra_widgets::{
    Color, DisplayLine, Indicator, ItemDisplay, LineIndicators, ListItem, ListState, RowLayout,
    SeparatedList, Spans, Style, Text, WindowType,
};

// A common set of items, as lines without and with separators:
//                            no sep       | sep
//   0:one                    f:0,  l:0    | f:1,  l:1
//   1:two . .                f:1,  l:3    | f:3,  l:5
//   2:three .                f:4,  l:5    | f:7,  l:8
//   3:four                   f:6,  l:6    | f:10, l:10
//   4:five .                 f:7,  l:8    | f:12, l:13
//   5:six                    f:9,  l:9    | f:15, l:15
//   6:seven ...and 1/2       f:10, l:11   | f:17, l:18
//   7:eight                  f:12, l:12   | f:20, l:20
// 13 lines without separators, 22 with them.
fn make_items() -> Vec<ListItem> {
    vec![
        ListItem::new(Text::raw("0:one")),
        ListItem::new(Text::raw("1:two\n.\n.")),
        ListItem::new(Text::raw("2:three\n.")),
        ListItem::new(Text::raw("3:four")),
        ListItem::new(Text::raw("4:five\n.")),
        ListItem::new(Text::raw("5:six")),
        ListItem::new(Text::raw("6:seven\n...and 1/2")),
        ListItem::new(Text::raw("7:eight")),
    ]
}

fn texts(lines: &[DisplayLine]) -> Vec<String> {
    lines
        .iter()
        .map(|l| l.line.0.iter().map(|s| s.content.as_str()).collect::<String>())
        .collect()
}

fn flags(lines: &[DisplayLine]) -> Vec<bool> {
    lines.iter().map(|l| l.must_display).collect()
}

#[test]
fn basic_window_of_five_rows() {
    let bgstyle = Style::default().bg(Color::Blue);
    let mut state = ListState::new(8);
    state.set_pos(5);
    state.select(5);
    let lines = SeparatedList::new(make_items())
        .selected_style(bgstyle)
        .display_lines(8, 5, &mut state);
    assert_eq!(texts(&lines), [".", "3:four", "4:five", ".", "5:six"]);
    assert_eq!(flags(&lines), [false, false, false, false, true]);
    assert!(lines[4].style.bg.is_some());
    assert_eq!(state.window_first(), 5);
}

#[test]
fn basic_window_follows_the_selection() {
    let mut state = ListState::new(8);
    let firsts = [0usize, 0, 1, 2, 2, 1, 0];
    let moves = [true, true, true, false, false, false, false];
    for (first, forward) in firsts.into_iter().zip(moves) {
        let lines = SeparatedList::new(make_items()).display_lines(8, 5, &mut state);
        assert_eq!(lines.len(), 5);
        assert_eq!(state.window_first(), first);
        if forward {
            state.cycle_next();
        } else {
            state.cycle_prev();
        }
    }
}

#[test]
fn basic_window_moves_down_to_the_selection() {
    let mut state = ListState::new(8);
    state.set_pos(4);
    state.select(5);
    let lines = SeparatedList::new(make_items()).display_lines(8, 5, &mut state);
    assert_eq!(lines.len(), 5);
    assert_eq!(state.window_first(), 5);

    let mut state = ListState::new(8);
    state.set_pos(7);
    state.select(7);
    let lines = SeparatedList::new(make_items()).display_lines(8, 5, &mut state);
    assert_eq!(texts(&lines), [".", "5:six", "6:seven", "...and 1/2", "7:eight"]);
    assert_eq!(state.window_first(), 8);
}

#[test]
fn separated_window_of_seventeen_rows() {
    let bgstyle = Style::default().bg(Color::Blue);
    let mut state = ListState::new(8);
    state.set_pos(3);
    state.select(7);
    let lines = SeparatedList::new(make_items())
        .selected_style(bgstyle)
        .item_display(ItemDisplay::Separated)
        .display_lines(8, 17, &mut state);

    assert_eq!(lines.len(), 17);
    assert!(lines[14].style.fg.is_some());
    assert!(lines[15].style.bg.is_some());
    assert!(lines[16].style.bg.is_some());
    let mut expected = vec![false; 14];
    expected.extend([true, true, true]);
    assert_eq!(flags(&lines), expected);
    assert_eq!(lines[15].line, Spans::raw("7:eight"));
    assert_eq!(state.window_first(), 5);
}

#[test]
fn separated_window_of_five_rows() {
    let mut state = ListState::new(8);
    state.set_pos(7);
    state.select(7);
    let lines = SeparatedList::new(make_items())
        .item_display(ItemDisplay::Separated)
        .display_lines(8, 5, &mut state);
    assert_eq!(lines.len(), 5);
    assert_eq!(flags(&lines), [false, false, true, true, true]);
    assert_eq!(state.window_first(), 17);
}

#[test]
fn selected_style_lies_over_item_style() {
    let default_style = Style::default().fg(Color::White).bg(Color::Black);
    let selected_style = Style::default().bg(Color::Yellow);
    let items = vec![
        ListItem::new(Text::raw("a")),
        ListItem::new(Text::raw("b")).style(Style::default().fg(Color::Red)),
        ListItem::new(Text::raw("c")).style(Style::default().bg(Color::Green)),
    ];
    let mut state = ListState::new(3);
    state.select(1);
    let lines = SeparatedList::new(items)
        .default_style(default_style)
        .selected_style(selected_style)
        .display_lines(4, 3, &mut state);
    assert_eq!(lines.len(), 3);
    // not selected, no style of its own: the default style
    assert_eq!(lines[0].style, default_style);
    // selected: the selection's background over the item's foreground
    assert_eq!(lines[1].style.fg, Some(Color::Red));
    assert_eq!(lines[1].style.bg, Some(Color::Yellow));
    // not selected: the item's background over the default
    assert_eq!(lines[2].style.fg, Some(Color::White));
    assert_eq!(lines[2].style.bg, Some(Color::Green));
    assert_eq!(flags(&lines), [false, true, false]);
}

#[test]
fn selected_indicator_replaces_the_items_own() {
    let own = LineIndicators::default().set_left(Indicator::Char("o"));
    let sel = LineIndicators::default()
        .set_left(Indicator::FirstLine(">"))
        .set_right(Indicator::LastLine("<"));
    let items = vec![
        ListItem::new(Text::raw("a\nb")).indicators(own),
        ListItem::new(Text::raw("c\nd")).indicators(own),
    ];
    let mut state = ListState::new(2);
    state.select(1);
    let lines = SeparatedList::new(items).selected_indicator(sel).display_lines(4, 4, &mut state);
    let left: Vec<&Spans> = lines.iter().map(|l| &l.left_indicator).collect();
    let right: Vec<&Spans> = lines.iter().map(|l| &l.right_indicator).collect();
    assert_eq!(left, [&Spans::raw("o"), &Spans::raw("o"), &Spans::raw(">"), &Spans::raw(" ")]);
    assert_eq!(right, [&Spans::raw(" "), &Spans::raw(" "), &Spans::raw(" "), &Spans::raw("<")]);
}

#[test]
fn separators_take_the_list_width() {
    let mut state = ListState::new(8);
    let lines = SeparatedList::new(make_items())
        .item_display(ItemDisplay::Separated)
        .display_lines(6, 3, &mut state);
    let run = tui::symbols::bar::HALF.repeat(6);
    assert_eq!(texts(&lines), [run.as_str(), "0:one", run.as_str()]);
    assert_eq!(flags(&lines), [true, true, true]);
}

#[test]
fn zero_height_draws_nothing() {
    for wt in [WindowType::SelectionScroll, WindowType::Fixed(0), WindowType::Fixed(3)] {
        for display in [ItemDisplay::Basic, ItemDisplay::Separated] {
            let mut state = ListState::new(8);
            state.select(2);
            let lines = SeparatedList::new(make_items())
                .window_type(wt)
                .item_display(display)
                .display_lines(8, 0, &mut state);
            assert!(lines.is_empty());
        }
    }
}

#[test]
fn window_never_exceeds_the_height() {
    // a selection beyond the items is never seen, and a fixed row beyond the
    // window would leave more lines than rows: they are cut
    let mut state = ListState::new(20);
    state.select(15);
    let lines = SeparatedList::new(make_items())
        .window_type(WindowType::Fixed(6))
        .display_lines(8, 4, &mut state);
    assert_eq!(texts(&lines), ["4:five", ".", "5:six", "6:seven"]);
}

#[test]
fn list_without_items_draws_nothing() {
    let mut state = ListState::default();
    let lines = SeparatedList::default().display_lines(8, 5, &mut state);
    assert!(lines.is_empty());
    let lines = SeparatedList::new(Vec::new())
        .item_display(ItemDisplay::Separated)
        .display_lines(8, 5, &mut state);
    assert!(lines.is_empty());
    assert_eq!(state.window_first(), 0);
}

#[test]
fn fixed_window_through_the_list() {
    let mut state = ListState::new(8);
    state.select(3);
    let lines = SeparatedList::new(make_items())
        .window_type(WindowType::Fixed(2))
        .display_lines(8, 5, &mut state);
    assert_eq!(texts(&lines), ["2:three", ".", "3:four", "4:five", "."]);
    assert_eq!(flags(&lines), [false, false, true, false, false]);
    assert_eq!(state.window_first(), 0);
}

#[test]
fn stateless_display_selects_the_first_item() {
    let lines = SeparatedList::new(make_items()).display_lines_stateless(8, 3);
    assert_eq!(texts(&lines), ["0:one", "1:two", "."]);
    assert_eq!(flags(&lines), [true, false, false]);
}

#[test]
fn items_can_be_set_later() {
    let mut state = ListState::new(8);
    let lines = SeparatedList::default().items(make_items()).display_lines(8, 2, &mut state);
    assert_eq!(texts(&lines), ["0:one", "1:two"]);
}

#[test]
fn row_layout_places_indicators() {
    let plain = SeparatedList::default();
    assert_eq!(
        plain.row_layout(10),
        RowLayout { left: None, right: None, text_offset: 0, text_width: 10 }
    );
    let left = SeparatedList::default().show_left_indicator();
    assert_eq!(
        left.row_layout(10),
        RowLayout { left: Some(0), right: None, text_offset: 1, text_width: 9 }
    );
    let right = SeparatedList::default().show_right_indicator();
    assert_eq!(
        right.row_layout(10),
        RowLayout { left: None, right: Some(9), text_offset: 0, text_width: 9 }
    );
    let both = SeparatedList::default().show_left_indicator().show_right_indicator();
    assert_eq!(
        both.row_layout(10),
        RowLayout { left: Some(0), right: Some(9), text_offset: 1, text_width: 8 }
    );
    assert_eq!(
        both.row_layout(2),
        RowLayout { left: Some(0), right: Some(1), text_offset: 1, text_width: 0 }
    );
    assert_eq!(
        both.row_layout(1),
        RowLayout { left: Some(0), right: None, text_offset: 1, text_width: 0 }
    );
    assert_eq!(
        both.row_layout(0),
        RowLayout { left: None, right: None, text_offset: 0, text_width: 0 }
    );
    assert_eq!(
        both.row_layout(u16::MAX),
        RowLayout { left: Some(0), right: Some(u16::MAX - 1), text_offset: 1, text_width: u16::MAX - 2 }
    );
}

#[test]
fn checked_display_draws_the_same() {
    let mut state = ListState::new(8);
    state.select(3);
    let list = SeparatedList::new(make_items());
    assert!(list.lines_fit());
    let lines = list.try_display_lines(8, 4, &mut state).unwrap();
    assert_eq!(texts(&lines), [".", "2:three", ".", "3:four"]);
    assert_eq!(state.window_first(), 3);
}

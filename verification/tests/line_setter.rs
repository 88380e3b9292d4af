use extra_widgets::{
    Color, DisplayItem, DisplayLine, ItemDisplay, LineSetter, ListItem, ListState, SeparatedList,
    Spans, Style, Text, ViewPort,
};

// a common set of items to show. always work with this to make
// reasoning about tests easier
fn make_items() -> Vec<ListItem> {
    let items = vec![
        //                                                no sep     | sep
        ListItem::new(Text::raw("0:one")),               // f:0, l:0   | f:1, l:1
        ListItem::new(Text::raw("1:two\n.\n.")),         // f:1, l:3   | f:3, l:5
        ListItem::new(Text::raw("2:three\n.")),          // f:4, l:5   | f:7, l:8
        ListItem::new(Text::raw("3:four")),              // f:6, l:6   | f:10, l:10
        ListItem::new(Text::raw("4:five\n.")),           // f:7, l:8   | f:12, l:13
        ListItem::new(Text::raw("5:six")),               // f:9, l:9   | f:15, l:15
        ListItem::new(Text::raw("6:seven\n...and 1/2")), // f:10, l:11 | f:17, l:18
        ListItem::new(Text::raw("7:eight")),             // f:12, l:12 | f:20, l:20
    ]; // last line overall = line on 12, height 13 | sep on 21, height = 22

    items
}

fn pspans(spans: &[DisplayLine]) {
    for (i, s) in spans.iter().enumerate() {
        println!("spans{}:\n{:?}\n{:?}", i, s.style, s.line);
    }
}

fn print(setter: &LineSetter) {
    for (i, it) in setter.items.iter().enumerate() {
        println!("{}) lp: {}, ll: {}, sel: {}", i, it.line_pos, it.last_line(), it.selected);
    }
}

#[derive(Debug)]
// last_fully vis, offset line
enum Move {
    Next(usize),
    Prev(usize),
}

#[test]
fn test_first_display_line() {
    // for all these scenarios window is size 5
    let mut state = ListState::new(8);
    let cycle: Vec<usize> = vec![0, 0, 1, 2, 2, 1, 0];
    let moves: Vec<Move> = vec![
        Move::Next(0),
        Move::Next(0),
        Move::Next(1),
        Move::Prev(2),
        Move::Prev(2),
        Move::Prev(1),
        Move::Prev(0),
    ];
    for (idx, (i, m)) in cycle.into_iter().zip(moves).enumerate() {
        println!("State: {:?}", state);
        let tsetter =
            LineSetter::new(8, 5, make_items(), &state, Style::default(), Style::default());
        let l = tsetter.first_display_line(&mut state);
        assert_eq!(l, i, "(at {}) expect: {} {:?} (got: {})", idx, i, m, l);

        drop(tsetter);

        match m {
            Move::Next(a) => {
                state.set_pos(a);
                state.cycle_next();
            }
            Move::Prev(a) => {
                state.set_pos(a);
                state.cycle_prev();
            }
        }
    }
}

#[test]
fn test_first_display_line_2() {
    let mut state = ListState::new(8);
    state.set_pos(4);
    state.select(5);
    let items = make_items();
    let tsetter = LineSetter::new(8, 5, items, &state, Style::default(), Style::default());

    assert_eq!(tsetter.first_display_line(&mut state), 5);
    assert_eq!(state.window_first(), 5);
}

#[test]
fn test_first_display_line_3() {
    let mut state = ListState::new(8);
    state.set_pos(7);
    state.select(7);
    let items = make_items();
    let tsetter = LineSetter::new(8, 5, items, &state, Style::default(), Style::default());

    assert_eq!(tsetter.first_display_line(&mut state), 8);
    assert_eq!(state.window_first(), 8);

    let items = make_items();
    let tsetter = LineSetter::new(8, 5, items, &state, Style::default(), Style::default())
        .add_separators();

    assert_eq!(tsetter.first_display_line(&mut state), 17);
    assert_eq!(state.window_first(), 17);
}

#[test]
fn test_constructor() {
    let state = ListState::new(8);
    let items = make_items();
    let tsetter = LineSetter::new(0, 0, items, &state, Style::default(), Style::default());

    assert_eq!(tsetter.raw_height, 13);
    assert_eq!(tsetter.items[0].last_line(), 0);
    assert_eq!(tsetter.items[1].last_line(), 3);
    assert_eq!(tsetter.items[2].last_line(), 5);
    assert_eq!(tsetter.items[3].last_line(), 6);
    assert_eq!(tsetter.items[4].last_line(), 8);
    assert_eq!(tsetter.items[5].last_line(), 9);
    assert_eq!(tsetter.items[6].last_line(), 11);
    assert_eq!(tsetter.items[7].last_line(), 12);
}

#[test]
fn test_sepmath() {
    let state = ListState::new(8);
    let items = make_items();
    let mut tsetter = LineSetter::new(8, 5, items, &state, Style::default(), Style::default());

    let old_rh = tsetter.raw_height;
    tsetter = tsetter.add_separators();

    assert_ne!(tsetter.raw_height, old_rh);
    assert_eq!(tsetter.raw_height, 22);
    assert_eq!(tsetter.items[0].last_line(), 0);
    assert_eq!(tsetter.items[1].last_line(), 1);
    assert_eq!(tsetter.items[2].last_line(), 2);
    assert_eq!(tsetter.items[3].last_line(), 5);
    assert_eq!(tsetter.items[4].last_line(), 6);
    assert_eq!(tsetter.items[5].last_line(), 8);
    assert_eq!(tsetter.items[6].last_line(), 9);
    assert_eq!(tsetter.items[7].last_line(), 10);
    assert_eq!(tsetter.items[8].last_line(), 11);
    assert_eq!(tsetter.items[9].last_line(), 13);
    assert_eq!(tsetter.items[10].last_line(), 14);
    assert_eq!(tsetter.items[11].last_line(), 15);
    assert_eq!(tsetter.items[12].last_line(), 16);
    assert_eq!(tsetter.items[13].last_line(), 18);
    assert_eq!(tsetter.items[14].last_line(), 19);
    assert_eq!(tsetter.items[15].last_line(), 20);
    assert_eq!(tsetter.items[16].last_line(), 21);
}

#[test]
fn test_spans() {
    let mut state = ListState::new(8);
    let items = make_items();
    let bgstyle = Style::default().bg(Color::Blue);
    let tsetter = LineSetter::new(8, 5, items, &state, Style::default(), bgstyle);
    let spans = tsetter.get_spans(&mut state);
    assert_eq!(spans.len(), 5);

    state.set_pos(2);
    state.select(4);

    let items = make_items();
    let tsetter = LineSetter::new(8, 5, items, &state, Style::default(), bgstyle);
    let spans = tsetter.get_spans(&mut state);
    assert_eq!(spans.len(), 5);

    state.set_pos(5);
    state.select(5);

    let items = make_items();
    let tsetter = LineSetter::new(8, 5, items, &state, Style::default(), bgstyle);
    print(&tsetter);
    let spans = tsetter.get_spans(&mut state);
    pspans(&spans);
    assert_eq!(spans.len(), 5);
    assert!(spans[4].style.bg.is_some());
}

#[test]
fn test_spans_sep() {
    let mut state = ListState::new(8);
    state.set_pos(3);
    state.select(7);
    let items = make_items();
    let bgstyle = Style::default().bg(Color::Blue);
    let tsetter =
        LineSetter::new(8, 17, items, &state, Style::default(), bgstyle).add_separators();
    let spans = tsetter.get_spans(&mut state);

    assert_eq!(spans.len(), 17);
    assert!(spans[14].style.fg.is_some());
    assert!(spans[15].style.bg.is_some());
    assert!(spans[16].style.bg.is_some());
}

fn texts(lines: &[DisplayLine]) -> Vec<String> {
    lines
        .iter()
        .map(|l| l.line.0.iter().map(|s| s.content.as_str()).collect::<String>())
        .collect()
}

#[test]
fn spans_are_the_lines_in_the_window() {
    let mut state = ListState::new(8);
    state.set_pos(5);
    state.select(5);
    let tsetter =
        LineSetter::new(8, 5, make_items(), &state, Style::default(), Style::default());
    let spans = tsetter.get_spans(&mut state);
    assert_eq!(texts(&spans), [".", "3:four", "4:five", ".", "5:six"]);
    let flags: Vec<bool> = spans.iter().map(|l| l.must_display).collect();
    assert_eq!(flags, [false, false, false, false, true]);
    assert_eq!(state.window_first(), 5);
    assert_eq!(spans[0].left_indicator, Spans::raw(" "));
}

#[test]
fn spans_of_a_short_list() {
    let mut state = ListState::new(8);
    state.select(2);
    let tsetter =
        LineSetter::new(8, 40, make_items(), &state, Style::default(), Style::default());
    let spans = tsetter.get_spans(&mut state);
    assert_eq!(spans.len(), 13);
    assert_eq!(state.window_first(), 0);
}

#[test]
fn spans_of_an_empty_window() {
    let mut state = ListState::new(8);
    state.select(3);
    let tsetter =
        LineSetter::new(8, 0, make_items(), &state, Style::default(), Style::default());
    assert!(tsetter.get_spans(&mut state).is_empty());
}

#[test]
fn separators_blend_the_items_around_them() {
    let state = ListState::new(2);
    let items = vec![ListItem::new(Text::raw("a")), ListItem::new(Text::raw("b\nc"))];
    let selected = Style::default().bg(Color::Red);
    let default_style = Style::default().bg(Color::Black);
    let tsetter = LineSetter::new(3, 5, items, &state, default_style, selected).add_separators();
    assert!(tsetter.separate);
    assert_eq!(tsetter.items.len(), 5);
    let run = Text::raw(&tui::symbols::bar::HALF.repeat(3));
    let positions: Vec<usize> = tsetter.items.iter().map(|i| i.line_pos).collect();
    assert_eq!(positions, [0, 1, 2, 3, 5]);
    for k in [0usize, 2, 4] {
        assert_eq!(tsetter.items[k].item.content, run);
        assert!(!tsetter.items[k].selected);
    }
    let bg: Vec<Option<Color>> = tsetter.items.iter().map(|i| i.item.style.bg).collect();
    let fg: Vec<Option<Color>> = tsetter.items.iter().map(|i| i.item.style.fg).collect();
    assert_eq!(bg[0], Some(Color::Black));
    assert_eq!(fg[0], Some(Color::Red));
    assert_eq!(bg[1], Some(Color::Red));
    assert_eq!(bg[2], Some(Color::Red));
    assert_eq!(fg[2], Some(Color::Black));
    assert_eq!(bg[3], Some(Color::Black));
    assert_eq!(bg[4], Some(Color::Black));
    assert_eq!(fg[4], Some(Color::Black));
    assert!(tsetter.items[1].selected);
    assert!(tsetter.items.iter().all(|i| i.separated));
}

#[test]
fn selected_position_finds_the_selection() {
    let mut state = ListState::new(8);
    state.select(6);
    let tsetter =
        LineSetter::new(8, 5, make_items(), &state, Style::default(), Style::default());
    assert_eq!(tsetter.selected_position(), Some(6));
    assert_eq!(tsetter.add_separators().selected_position(), Some(13));

    let mut state = ListState::new(20);
    state.select(12);
    let tsetter =
        LineSetter::new(8, 5, make_items(), &state, Style::default(), Style::default());
    assert_eq!(tsetter.selected_position(), None);
}

#[test]
fn placement_agrees_with_the_scrolling_window() {
    // with the old window inside the lines, both ways of placing the window
    // put it on the same line
    for selected in 0..8usize {
        for height in 1..14u16 {
            for anchor in 0..(14 - height as usize) {
                let mut by_position = ListState::new(8);
                by_position.select(selected);
                by_position.set_pos(anchor);
                let tsetter = LineSetter::new(
                    8,
                    height,
                    make_items(),
                    &by_position,
                    Style::default(),
                    Style::default(),
                );
                let spans = tsetter.get_spans(&mut by_position);

                let mut by_scroll = ListState::new(8);
                by_scroll.select(selected);
                by_scroll.set_pos(anchor);
                let lines = SeparatedList::new(make_items())
                    .item_display(ItemDisplay::Basic)
                    .display_lines(8, height, &mut by_scroll);

                assert_eq!(by_position.window_first(), by_scroll.window_first());
                assert_eq!(texts(&spans), texts(&lines));
            }
        }
    }
}

#[test]
fn viewport_rows() {
    let v = ViewPort { pos: 4, height: 5 };
    assert_eq!(v.top(), 4);
    assert_eq!(v.bottom(), 8);
    assert_eq!(ViewPort { pos: 4, height: 1 }.bottom(), 4);
    assert_eq!(ViewPort { pos: 4, height: 0 }.bottom(), 4);
    assert_eq!(ViewPort { pos: usize::MAX - 1, height: 9 }.bottom(), usize::MAX);
}

fn placed(text: &str, line_pos: usize, separated: bool) -> DisplayItem {
    DisplayItem { item: ListItem::new(Text::raw(text)), line_pos, selected: true, separated }
}

#[test]
fn viewport_moves_to_hold_an_item() {
    // below the viewport: down until the last line is on the last row
    let mut v = ViewPort { pos: 0, height: 5 };
    v.move_to_hold(&placed("a\nb", 7, false));
    assert_eq!(v, ViewPort { pos: 4, height: 5 });
    // in the viewport: no move
    v.move_to_hold(&placed("a\nb", 5, false));
    assert_eq!(v.top(), 4);
    // above the viewport: up to the first line
    v.move_to_hold(&placed("a\nb", 1, false));
    assert_eq!(v.top(), 1);
    // larger than the viewport: shown from the first line
    let mut v = ViewPort { pos: 0, height: 2 };
    v.move_to_hold(&placed("a\nb\nc\nd", 6, false));
    assert_eq!(v.top(), 6);
    // with separators, the lines around the item are held too
    let mut v = ViewPort { pos: 0, height: 5 };
    v.move_to_hold(&placed("a\nb", 7, true));
    assert_eq!(v.top(), 5);
    v.move_to_hold(&placed("a", 3, true));
    assert_eq!(v.top(), 2);
}

#[test]
fn display_item_lines() {
    let d = placed("a\nb\nc", 4, false);
    assert_eq!(d.height(), 3);
    assert_eq!(d.last_line(), 6);
    assert_eq!(d.first_display_line(), 4);
    assert_eq!(d.last_display_line(), 6);
    let d = placed("a\nb\nc", 4, true);
    assert_eq!(d.first_display_line(), 3);
    assert_eq!(d.last_display_line(), 7);
    let d = placed("a", 0, true);
    assert_eq!(d.first_display_line(), 0);
    assert_eq!(d.last_display_line(), 1);
    let d = placed("", 0, false);
    assert_eq!(d.height(), 0);
    assert_eq!(d.last_display_line(), 0);
}

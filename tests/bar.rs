use slimbar::line::{
    bar_line, left_more_message, mode_part, populate_tabs_in_tab_line, right_more_message,
    session_part, swap_layout_status,
};
use slimbar::part::{Color, InputMode, LinePart, Palette, ThemeHue};

fn palette() -> Palette {
    Palette {
        theme_hue: ThemeHue::Dark,
        fg: Color::EightBit(7),
        bg: Color::EightBit(0),
        black: Color::Rgb(0, 0, 0),
        red: Color::EightBit(1),
        green: Color::EightBit(2),
        yellow: Color::EightBit(3),
        blue: Color::EightBit(4),
        magenta: Color::EightBit(5),
        cyan: Color::EightBit(6),
        white: Color::Rgb(255, 255, 255),
        orange: Color::Rgb(255, 165, 0),
        gray: Color::EightBit(8),
        purple: Color::EightBit(9),
        gold: Color::EightBit(10),
        silver: Color::EightBit(11),
        pink: Color::EightBit(12),
        brown: Color::EightBit(13),
    }
}

fn tab(width: usize, index: usize) -> LinePart {
    LinePart { part: "x".repeat(width), len: width, tab_index: Some(index) }
}

fn tabs(n: usize, width: usize) -> Vec<LinePart> {
    (0..n).map(|i| tab(width, i)).collect()
}

fn width(parts: &[LinePart]) -> usize {
    parts.iter().map(|p| p.len).sum()
}

fn tab_indices(parts: &[LinePart]) -> Vec<Option<usize>> {
    parts.iter().map(|p| p.tab_index).collect()
}

#[test]
fn markers_carry_the_count() {
    let p = left_more_message(3, palette(), 2);
    assert!(p.part.contains(" << 3 "));
    assert_eq!(p.len, 6);
    assert_eq!(p.tab_index, Some(2));
    let p = right_more_message(9, palette(), 7);
    assert!(p.part.contains(" 9 >> "));
    assert_eq!(p.len, 6);
    assert_eq!(p.tab_index, Some(7));
}

#[test]
fn markers_fall_back_past_nine() {
    let p = left_more_message(10, palette(), 9);
    assert!(p.part.contains(" <<< "));
    assert_eq!(p.len, 5);
    let p = right_more_message(11, palette(), 1);
    assert!(p.part.contains(" >>> "));
    assert_eq!(p.len, 5);
}

#[test]
fn markers_for_nothing_are_empty() {
    let p = left_more_message(0, palette(), 4);
    assert_eq!(p.part, "");
    assert_eq!(p.len, 0);
    assert_eq!(p.tab_index, None);
    let p = right_more_message(0, palette(), 4);
    assert_eq!(p.part, "");
    assert_eq!(p.len, 0);
}

#[test]
fn painted_text_is_styled() {
    let p = left_more_message(3, palette(), 2);
    assert!(p.part.starts_with('\u{1b}'));
    assert_ne!(p.part, " << 3 ");
}

#[test]
fn mode_is_centred_in_eight_columns() {
    let p = mode_part(InputMode::Normal, palette());
    assert!(p.part.contains(" NORMAL "));
    assert_eq!(p.len, 8);
    let p = mode_part(InputMode::Tab, palette());
    assert!(p.part.contains("  TAB   "));
    assert_eq!(p.len, 8);
    let p = mode_part(InputMode::EnterSearch, palette());
    assert!(p.part.contains("ENTERSEARCH"));
    assert_eq!(p.len, 11);
}

#[test]
fn session_width_counts_columns() {
    let p = session_part(Some("main"), palette());
    assert!(p.part.contains(" main "));
    assert_eq!(p.len, 6);
    let p = session_part(Some("日本"), palette());
    assert_eq!(p.len, 6);
    let p = session_part(None, palette());
    assert!(p.part.contains(" <unnamed> "));
    assert_eq!(p.len, 11);
}

#[test]
fn swap_layout_is_upper_case() {
    let name = Some("base".to_string());
    let p = swap_layout_status(&name, false, InputMode::Normal, &palette()).unwrap();
    assert!(p.part.contains(" BASE "));
    assert_eq!(p.len, 6);
    assert!(swap_layout_status(&None, false, InputMode::Normal, &palette()).is_none());
}

#[test]
fn everything_fits() {
    let mut before = tabs(2, 4);
    let mut after = vec![tab(4, 3), tab(4, 4)];
    let mut shown = vec![tab(4, 2)];
    populate_tabs_in_tab_line(&mut before, &mut after, &mut shown, 24, palette());
    assert!(before.is_empty());
    assert!(after.is_empty());
    assert_eq!(shown.len(), 7);
    assert_eq!(shown[0].len, 0);
    assert_eq!(shown[6].len, 0);
    assert_eq!(width(&shown), 20);
}

#[test]
fn grows_the_narrower_side_first() {
    let mut before = tabs(5, 4);
    let mut after: Vec<LinePart> = (6..11).map(|i| tab(4, i)).collect();
    let mut shown = vec![tab(4, 5)];
    populate_tabs_in_tab_line(&mut before, &mut after, &mut shown, 28, palette());
    // left first on a tie, then the right as the left is wider, then the
    // left again; the markers of six columns each take the rest
    assert_eq!(
        tab_indices(&shown),
        vec![Some(2), Some(3), Some(4), Some(5), Some(6), Some(7)]
    );
    assert_eq!(before.len(), 3);
    assert_eq!(after.len(), 4);
    assert!(shown[0].part.contains(" << 3 "));
    assert!(shown[5].part.contains(" 4 >> "));
    assert!(width(&shown) <= 28);
}

#[test]
fn gives_up_when_markers_do_not_fit() {
    let mut before = tabs(3, 4);
    let mut after = vec![tab(4, 4)];
    let mut shown = vec![tab(4, 3)];
    populate_tabs_in_tab_line(&mut before, &mut after, &mut shown, 10, palette());
    assert_eq!(tab_indices(&shown), vec![Some(3)]);
    assert_eq!(before.len(), 3);
    assert_eq!(after.len(), 1);
}

#[test]
fn last_tab_takes_its_marker_away() {
    // one folded tab of width 5 fits where its marker of width 6 stood
    let mut before = vec![tab(5, 0)];
    let mut after = Vec::new();
    let mut shown = vec![tab(4, 1)];
    populate_tabs_in_tab_line(&mut before, &mut after, &mut shown, 10, palette());
    assert_eq!(tab_indices(&shown), vec![None, Some(0), Some(1), None]);
    assert_eq!(width(&shown), 9);
}

#[test]
fn too_narrow_for_mode_and_active_tab() {
    let bar = bar_line(Some("s"), tabs(3, 6), 1, 5, palette(), InputMode::RenamePane, &None, false);
    assert_eq!(bar.len(), 1);
    assert_eq!(bar[0].len, 10);
    assert!(bar[0].part.contains("RENAMEPANE"));
}

#[test]
fn exact_budget_shows_every_tab() {
    // mode 8 columns, session " s " 3 columns
    let bar = bar_line(Some("s"), tabs(3, 6), 1, 18 + 8 + 3, palette(), InputMode::Normal, &None, false);
    assert_eq!(
        tab_indices(&bar),
        vec![None, None, Some(0), Some(1), Some(2), None, None]
    );
    assert_eq!(bar[1].len, 0);
    assert_eq!(bar[5].len, 0);
    assert_eq!(width(&bar), 29);
}

#[test]
fn narrow_budget_folds_the_right() {
    let bar = bar_line(Some("s"), tabs(12, 4), 0, 8 + 3 + 4 + 5, palette(), InputMode::Normal, &None, false);
    assert_eq!(bar.len(), 5);
    assert_eq!(bar[1].len, 0);
    assert_eq!(bar[1].part, "");
    assert_eq!(bar[2].tab_index, Some(0));
    assert!(bar[3].part.contains(" >>> "));
    assert_eq!(bar[3].len, 5);
    assert_eq!(bar[3].tab_index, Some(1));
    assert_eq!(width(&bar), 20);
}

#[test]
fn nine_folded_tabs_show_their_count() {
    let bar = bar_line(Some("s"), tabs(10, 4), 0, 8 + 3 + 4 + 6, palette(), InputMode::Normal, &None, false);
    assert!(bar[3].part.contains(" 9 >> "));
    assert_eq!(bar[3].len, 6);
}

#[test]
fn bar_never_exceeds_budget() {
    let name = Some("compact".to_string());
    for cols in 0..80 {
        for active in 0..7 {
            let bar = bar_line(Some("main"), tabs(7, 5), active, cols, palette(), InputMode::Locked, &name, true);
            if 8 + 5 > cols {
                assert_eq!(bar.len(), 1);
            } else {
                assert!(width(&bar) <= cols, "cols {} active {}", cols, active);
            }
        }
    }
}

#[test]
fn swap_layout_goes_before_session() {
    let name = Some("base".to_string());
    // mode 8, active 4, session " main " 6, swap " BASE " 6: room for the session only
    let bar = bar_line(Some("main"), tabs(1, 4), 0, 8 + 4 + 6, palette(), InputMode::Normal, &name, false);
    let last = bar.last().unwrap();
    assert!(last.part.contains(" main "));
    assert!(!bar.iter().any(|p| p.part.contains("BASE")));
    let bar = bar_line(Some("main"), tabs(1, 4), 0, 8 + 4 + 6 + 6, palette(), InputMode::Normal, &name, false);
    assert!(bar.iter().any(|p| p.part.contains(" BASE ")));
}

#[test]
fn same_inputs_same_bar() {
    let name = Some("grid".to_string());
    let a = bar_line(Some("dev"), tabs(9, 3), 4, 30, palette(), InputMode::Pane, &name, false);
    let b = bar_line(Some("dev"), tabs(9, 3), 4, 30, palette(), InputMode::Pane, &name, false);
    assert_eq!(a.len(), b.len());
    for (x, y) in a.iter().zip(b.iter()) {
        assert_eq!(x.part, y.part);
        assert_eq!(x.len, y.len);
        assert_eq!(x.tab_index, y.tab_index);
    }
}

#[test]
fn wider_budget_can_show_fewer_tabs() {
    // one more column lets the wide tab on the left in, which leaves no
    // room for the narrow ones on the right
    let run = |cols: usize| {
        let mut before = vec![tab(10, 0)];
        let mut after: Vec<LinePart> = (2..7).map(|i| tab(1, i)).collect();
        let mut shown = vec![tab(1, 1)];
        populate_tabs_in_tab_line(&mut before, &mut after, &mut shown, cols, palette());
        shown.iter().filter(|p| p.len > 0 && p.tab_index.is_some() && !p.part.contains(">>") && !p.part.contains("<<")).count()
    };
    assert_eq!(run(16), 4);
    assert_eq!(run(17), 2);
}

#[test]
fn one_sided_tabs_grow_with_budget() {
    let mut last = 0;
    for cols in 0..70 {
        let mut before = Vec::new();
        let mut after: Vec<LinePart> = (1..12).map(|i| tab(4, i)).collect();
        let mut shown = vec![tab(4, 0)];
        populate_tabs_in_tab_line(&mut before, &mut after, &mut shown, cols, palette());
        let count = 11 - after.len();
        assert!(count >= last, "cols {}", cols);
        last = count;
    }
    assert_eq!(last, 11);
}

use slimbar::plugin::{BarEvent, BarState};
use slimbar::part::{Color, Palette, TabInfo, ThemeHue};
use slimbar::tab::{client_id_to_colors, cursors, render_tab, tab_style};

fn colors() -> Palette {
    Palette {
        theme_hue: ThemeHue::Light,
        fg: Color::EightBit(7),
        bg: Color::EightBit(0),
        black: Color::EightBit(16),
        red: Color::EightBit(1),
        green: Color::EightBit(2),
        yellow: Color::EightBit(3),
        blue: Color::EightBit(4),
        magenta: Color::EightBit(5),
        cyan: Color::EightBit(6),
        white: Color::EightBit(15),
        orange: Color::EightBit(208),
        gray: Color::EightBit(8),
        purple: Color::EightBit(9),
        gold: Color::EightBit(10),
        silver: Color::EightBit(11),
        pink: Color::EightBit(12),
        brown: Color::EightBit(13),
    }
}

fn info(position: usize, clients: Vec<u16>, sync: bool) -> TabInfo {
    TabInfo { position, active: false, is_sync_panes_active: sync, other_focused_clients: clients }
}

#[test]
fn tab_takes_name_and_padding() {
    let p = render_tab("ab".to_string(), &info(3, vec![], false), false, colors());
    assert_eq!(p.len, 4);
    assert!(p.part.contains(" ab "));
    assert_eq!(p.tab_index, Some(3));
}

#[test]
fn tab_counts_wide_characters() {
    let p = render_tab("日本".to_string(), &info(0, vec![], false), true, colors());
    assert_eq!(p.len, 6);
}

#[test]
fn tab_shows_cursors_of_known_clients() {
    let p = render_tab("ab".to_string(), &info(1, vec![1, 11, 2], false), false, colors());
    assert_eq!(p.len, 8);
    assert!(p.part.contains('['));
    assert!(p.part.contains(']'));
    // the cells take the clients' colours as background
    assert!(p.part.contains("48;5;5"));
    assert!(p.part.contains("48;5;4"));
}

#[test]
fn synced_tab_is_marked() {
    let p = tab_style("ab".to_string(), &info(0, vec![], true), false, colors());
    assert!(p.part.contains(" ab (Sync) "));
    assert_eq!(p.len, 11);
    let p = tab_style("ab".to_string(), &info(0, vec![], false), false, colors());
    assert_eq!(p.len, 4);
}

#[test]
fn client_colours() {
    let c = colors();
    assert_eq!(client_id_to_colors(1, c), Some((c.magenta, c.black)));
    assert_eq!(client_id_to_colors(10, c), Some((c.brown, c.black)));
    assert_eq!(client_id_to_colors(11, c), None);
    let (cells, len) = cursors(&[2, 0, 7], c);
    assert_eq!(len, 2);
    assert_eq!(cells[0].1, c.black);
    assert_eq!(cells[0].2, c.blue);
    assert_eq!(cells[1].2, c.red);
}

#[test]
fn plugin_follows_tabs_and_clicks() {
    let mut s = BarState::new();
    let r = s.update(BarEvent::TabUpdate { active_index: Some(2), differs: true, tab_count: 4 });
    assert!(r.should_render);
    assert!(r.store_tabs);
    assert_eq!(s.active_tab_idx, 3);
    let r = s.update(BarEvent::TabUpdate { active_index: Some(2), differs: false, tab_count: 4 });
    assert!(!r.should_render);
    let r = s.update(BarEvent::TabUpdate { active_index: None, differs: true, tab_count: 4 });
    assert!(!r.should_render && !r.store_tabs);
    let r = s.update(BarEvent::LeftClick(7));
    assert!(r.should_render);
    assert!(s.should_change_tab);
    assert_eq!(s.mouse_click_pos, 7);
    let r = s.update(BarEvent::LeftClick(7));
    assert!(!r.should_render);
    let r = s.update(BarEvent::ModeUpdate { differs: true });
    assert!(r.should_render && r.store_mode);
}

#[test]
fn plugin_scrolls_within_tabs() {
    let mut s = BarState::new();
    s.update(BarEvent::TabUpdate { active_index: Some(3), differs: true, tab_count: 4 });
    assert_eq!(s.update(BarEvent::ScrollUp).switch_to, Some(4));
    assert_eq!(s.update(BarEvent::ScrollDown).switch_to, Some(3));
    s.update(BarEvent::TabUpdate { active_index: Some(0), differs: true, tab_count: 4 });
    assert_eq!(s.update(BarEvent::ScrollDown).switch_to, Some(1));
    assert_eq!(s.update(BarEvent::ScrollUp).switch_to, Some(2));
    assert!(!s.update(BarEvent::Other).should_render);
}

//! Rendering of one tab: its name between spaces, coloured by whether it is
//! active, and a cursor cell for each other client focused on it.

use vstd::prelude::*;
use crate::part::{ClientId, Color, Emphasis, LinePart, Palette, PartView, TabInfo};
use crate::paint::{display_width, paint, paint_run, painted, painted_run, text_width};
use crate::line::{back_color, back_color_of, clamp_usize, more_text_color, text_color};

verus! {

/// The two colours of client `client_id`'s cursor, primary then secondary;
/// none for an id past ten.
pub open spec fn client_colors(client_id: ClientId, palette: Palette) -> Option<(Color, Color)> {
    if client_id == 1 { Some((palette.magenta, palette.black)) }
    else if client_id == 2 { Some((palette.blue, palette.black)) }
    else if client_id == 3 { Some((palette.purple, palette.black)) }
    else if client_id == 4 { Some((palette.yellow, palette.black)) }
    else if client_id == 5 { Some((palette.cyan, palette.black)) }
    else if client_id == 6 { Some((palette.gold, palette.black)) }
    else if client_id == 7 { Some((palette.red, palette.black)) }
    else if client_id == 8 { Some((palette.silver, palette.black)) }
    else if client_id == 9 { Some((palette.pink, palette.black)) }
    else if client_id == 10 { Some((palette.brown, palette.black)) }
    else { None }
}

/// The colours of client `client_id`'s cursor, primary then secondary.
pub fn client_id_to_colors(client_id: ClientId, palette: Palette) -> (r: Option<(Color, Color)>)
    ensures
        r == client_colors(client_id, palette),
{
    match client_id {
        1 => Some((palette.magenta, palette.black)),
        2 => Some((palette.blue, palette.black)),
        3 => Some((palette.purple, palette.black)),
        4 => Some((palette.yellow, palette.black)),
        5 => Some((palette.cyan, palette.black)),
        6 => Some((palette.gold, palette.black)),
        7 => Some((palette.red, palette.black)),
        8 => Some((palette.silver, palette.black)),
        9 => Some((palette.pink, palette.black)),
        10 => Some((palette.brown, palette.black)),
        _ => None,
    }
}

/// One cursor cell for each client with a colour, in order: a space in the
/// secondary colour on the primary one.
pub open spec fn cursor_cells(clients: Seq<ClientId>, palette: Palette) -> Seq<(Seq<char>, Color, Color)>
    decreases clients.len(),
{
    if clients.len() == 0 {
        Seq::empty()
    } else {
        let rest = cursor_cells(clients.drop_last(), palette);
        match client_colors(clients.last(), palette) {
            Some((primary, secondary)) => rest.push((seq![' '], secondary, primary)),
            None => rest,
        }
    }
}

proof fn lemma_cursor_cells_len(clients: Seq<ClientId>, palette: Palette)
    ensures
        cursor_cells(clients, palette).len() <= clients.len(),
    decreases clients.len(),
{
    if clients.len() > 0 {
        lemma_cursor_cells_len(clients.drop_last(), palette);
    }
}

/// The cursor cells of `focused_clients`, and the columns they take.
pub fn cursors(focused_clients: &[ClientId], palette: Palette) -> (r: (Vec<(String, Color, Color)>, usize))
    ensures
        r.0@.map_values(|p: (String, Color, Color)| (p.0@, p.1, p.2)) == cursor_cells(focused_clients@, palette),
        r.1 == cursor_cells(focused_clients@, palette).len(),
{
    let mut len: usize = 0;
    let mut cells: Vec<(String, Color, Color)> = Vec::new();
    let mut i: usize = 0;
    while i < focused_clients.len()
        invariant
            0 <= i <= focused_clients.len(),
            cells@.map_values(|p: (String, Color, Color)| (p.0@, p.1, p.2)) == cursor_cells(focused_clients@.take(i as int), palette),
            len == cells.len(),
            len <= i,
        decreases focused_clients.len() - i,
    {
        proof {
            assert(focused_clients@.take(i + 1).drop_last() =~= focused_clients@.take(i as int));
            reveal_strlit(" ");
        }
        let ghost old_cells = cells@;
        if let Some(color) = client_id_to_colors(focused_clients[i], palette) {
            let cell = String::from_str(" ");
            assert(cell@ =~= seq![' ']);
            cells.push((cell, color.1, color.0));
            len = len + 1;
            assert(cells@.map_values(|p: (String, Color, Color)| (p.0@, p.1, p.2)) =~= old_cells.map_values(
                |p: (String, Color, Color)| (p.0@, p.1, p.2),
            ).push((seq![' '], color.1, color.0)));
        }
        i = i + 1;
    }
    assert(focused_clients@.take(i as int) =~= focused_clients@);
    (cells, len)
}

/// The background of a tab: one colour for the active tab, one for an
/// alternate tab, one for the rest.
pub open spec fn tab_background(active: bool, is_alternate_tab: bool, palette: Palette) -> Color {
    if active {
        palette.green
    } else if is_alternate_tab {
        text_color(palette)
    } else {
        palette.fg
    }
}

/// The part for a tab named `text`: the name between spaces, then, where
/// other clients are focused on the tab, their cursor cells between brackets.
/// It takes the name's columns, two for the spaces, and, where there are
/// cursor cells, two for the brackets and one per cell.
pub open spec fn tab_view(text: Seq<char>, tab: TabInfo, is_alternate_tab: bool, palette: Palette) -> PartView {
    let fg = back_color(palette);
    let bg = tab_background(tab.active, is_alternate_tab, palette);
    let cells = cursor_cells(tab.other_focused_clients@, palette);
    let name = painted(seq![' '] + text + seq![' '], fg, bg, Emphasis::Bold);
    let part = if tab.other_focused_clients@.len() == 0 {
        name
    } else {
        name + painted(seq!['['], fg, bg, Emphasis::Bold) + painted_run(cells) + painted(seq![']'], fg, bg, Emphasis::Bold)
    };
    let brackets: int = if tab.other_focused_clients@.len() == 0 { 0 } else { 2 };
    (part, clamp_usize(display_width(text) + 2int + brackets + cells.len()), Some(tab.position))
}

/// The part for `tab`, shown under the name `text`.
pub fn render_tab(text: String, tab: &TabInfo, is_alternate_tab: bool, palette: Palette) -> (r: LinePart)
    ensures
        r@ == tab_view(text@, *tab, is_alternate_tab, palette),
{
    let alternate_tab_color = more_text_color(palette);
    let background_color = if tab.active {
        palette.green
    } else if is_alternate_tab {
        alternate_tab_color
    } else {
        palette.fg
    };
    let foreground_color = back_color_of(palette);
    let mut tab_text_len = text_width(text.as_str()).saturating_add(2);

    proof {
        reveal_strlit(" ");
        reveal_strlit("[");
        reveal_strlit("]");
    }
    let mut spaced = String::from_str(" ");
    spaced.append(text.as_str());
    spaced.append(" ");
    assert(spaced@ =~= seq![' '] + text@ + seq![' ']);
    // a single painted string is written alike on its own or as a run
    let mut styled = paint(spaced.as_str(), foreground_color, background_color, Emphasis::Bold);
    let ghost cells = cursor_cells(tab.other_focused_clients@, palette);
    if tab.other_focused_clients.len() > 0 {
        let (cursor_section, extra_length) = cursors(tab.other_focused_clients.as_slice(), palette);
        // the brackets, then one column per cell
        tab_text_len = tab_text_len.saturating_add(2).saturating_add(extra_length);
        let cursor_beginning = paint("[", foreground_color, background_color, Emphasis::Bold);
        let cursor_cells_text = paint_run(&cursor_section);
        let cursor_end = paint("]", foreground_color, background_color, Emphasis::Bold);
        let ghost name = styled@;
        styled.append(cursor_beginning.as_str());
        styled.append(cursor_cells_text.as_str());
        styled.append(cursor_end.as_str());
        assert(styled@ =~= name + cursor_beginning@ + cursor_cells_text@ + cursor_end@);
        assert("["@ =~= seq!['[']);
        assert("]"@ =~= seq![']']);
        assert(cursor_cells_text@ == painted_run(cells));
        assert(background_color == tab_background(tab.active, is_alternate_tab, palette));
        assert(tab_text_len == clamp_usize(display_width(text@) + 4int + cells.len()));
    } else {
        assert(tab.other_focused_clients@.len() == 0);
        assert(cells.len() == 0);
    }
    proof {
        lemma_cursor_cells_len(tab.other_focused_clients@, palette);
    }
    LinePart { part: styled, len: tab_text_len, tab_index: Some(tab.position) }
}

/// The part for `tab` under the name `tabname`, marked `(Sync)` where the
/// tab's panes take input together.
pub fn tab_style(tabname: String, tab: &TabInfo, is_alternate_tab: bool, palette: Palette) -> (r: LinePart)
    ensures
        r@ == tab_view(
            if tab.is_sync_panes_active {
                tabname@ + seq![' ', '(', 'S', 'y', 'n', 'c', ')']
            } else {
                tabname@
            },
            *tab,
            is_alternate_tab,
            palette,
        ),
{
    let mut tabname = tabname;
    if tab.is_sync_panes_active {
        proof {
            reveal_strlit(" (Sync)");
        }
        let ghost before_sync = tabname@;
        tabname.append(" (Sync)");
        assert(tabname@ =~= before_sync + seq![' ', '(', 'S', 'y', 'n', 'c', ')']);
    }
    render_tab(tabname, tab, is_alternate_tab, palette)
}

} // verus!

//! Composition of the bar: the mode on the left, the session and layout on
//! the right, and between them as many tabs as fit around the active one.

use vstd::prelude::*;
use crate::part::{
    empty_view, lemma_total_len_concat, lemma_total_len_nonneg, total_len, views, Color,
    Emphasis, InputMode, LinePart, Palette, PartView, ThemeHue,
};
use crate::paint::{
    ascii_upper, ascii_uppercase, display_width, is_printable_ascii, paint, painted, text_width,
};

verus! {

// ---------------------------------------------------------------------------
// Markers for folded tabs
// ---------------------------------------------------------------------------

/// The decimal digit `d`, for `d < 10`.
pub open spec fn digit_char(d: int) -> char {
    if d == 0 { '0' } else if d == 1 { '1' } else if d == 2 { '2' } else if d == 3 { '3' }
    else if d == 4 { '4' } else if d == 5 { '5' } else if d == 6 { '6' } else if d == 7 { '7' }
    else if d == 8 { '8' } else { '9' }
}

/// Text of the marker for `n > 0` tabs folded on the left.
pub open spec fn left_more_text(n: int) -> Seq<char> {
    if n < 10 {
        seq![' ', '<', '<', ' ', digit_char(n), ' ']
    } else {
        seq![' ', '<', '<', '<', ' ']
    }
}

/// Text of the marker for `n > 0` tabs folded on the right.
pub open spec fn right_more_text(n: int) -> Seq<char> {
    if n < 10 {
        seq![' ', digit_char(n), ' ', '>', '>', ' ']
    } else {
        seq![' ', '>', '>', '>', ' ']
    }
}

/// Columns taken by the marker for `n` folded tabs (none when `n` is zero).
pub open spec fn more_width(n: int) -> int {
    if n <= 0 {
        0
    } else if n < 10 {
        6
    } else {
        5
    }
}

/// Foreground of the plain text on the bar: light on a dark theme, dark on a light one.
pub open spec fn text_color(palette: Palette) -> Color {
    match palette.theme_hue {
        ThemeHue::Dark => palette.white,
        ThemeHue::Light => palette.black,
    }
}

/// Background of the decorations: dark on a dark theme, light on a light one.
pub open spec fn back_color(palette: Palette) -> Color {
    match palette.theme_hue {
        ThemeHue::Dark => palette.black,
        ThemeHue::Light => palette.white,
    }
}

/// The marker for `n` tabs folded on the left, leading to tab `idx`.
pub open spec fn left_more_view(n: int, palette: Palette, idx: usize) -> PartView {
    if n <= 0 {
        empty_view()
    } else {
        (
            painted(left_more_text(n), text_color(palette), palette.orange, Emphasis::Bold),
            more_width(n) as usize,
            Some(idx),
        )
    }
}

/// The marker for `n` tabs folded on the right, leading to tab `idx`.
pub open spec fn right_more_view(n: int, palette: Palette, idx: usize) -> PartView {
    if n <= 0 {
        empty_view()
    } else {
        (
            painted(right_more_text(n), text_color(palette), palette.orange, Emphasis::Bold),
            more_width(n) as usize,
            Some(idx),
        )
    }
}

fn digit_str(d: usize) -> (r: &'static str)
    requires
        d < 10,
    ensures
        r@ == seq![digit_char(d as int)],
{
    proof {
        reveal_strlit("0"); reveal_strlit("1"); reveal_strlit("2"); reveal_strlit("3");
        reveal_strlit("4"); reveal_strlit("5"); reveal_strlit("6"); reveal_strlit("7");
        reveal_strlit("8"); reveal_strlit("9");
    }
    let r = if d == 0 { "0" } else if d == 1 { "1" } else if d == 2 { "2" } else if d == 3 { "3" }
    else if d == 4 { "4" } else if d == 5 { "5" } else if d == 6 { "6" } else if d == 7 { "7" }
    else if d == 8 { "8" } else { "9" };
    assert(r@ =~= seq![digit_char(d as int)]);
    r
}

pub(crate) fn more_text_color(palette: Palette) -> (r: Color)
    ensures
        r == text_color(palette),
{
    match palette.theme_hue {
        ThemeHue::Dark => palette.white,
        ThemeHue::Light => palette.black,
    }
}

/// The marker that stands for the `tab_count_to_the_left` tabs folded on the
/// left; a click on it leads to tab `tab_index`. Nothing when no tab is folded.
pub fn left_more_message(tab_count_to_the_left: usize, palette: Palette, tab_index: usize) -> (r: LinePart)
    ensures
        r@ == left_more_view(tab_count_to_the_left as int, palette, tab_index),
{
    if tab_count_to_the_left == 0 {
        return LinePart::empty();
    }
    proof {
        reveal_strlit(" << ");
        reveal_strlit(" ");
        reveal_strlit(" <<< ");
    }
    let more_text = if tab_count_to_the_left < 10 {
        let mut t = String::from_str(" << ");
        t.append(digit_str(tab_count_to_the_left));
        t.append(" ");
        t
    } else {
        String::from_str(" <<< ")
    };
    assert(more_text@ =~= left_more_text(tab_count_to_the_left as int));
    let more_text_len = text_width(more_text.as_str());
    let more_styled_text = paint(more_text.as_str(), more_text_color(palette), palette.orange, Emphasis::Bold);
    LinePart { part: more_styled_text, len: more_text_len, tab_index: Some(tab_index) }
}

/// The marker that stands for the `tab_count_to_the_right` tabs folded on the
/// right; a click on it leads to tab `tab_index`. Nothing when no tab is folded.
pub fn right_more_message(tab_count_to_the_right: usize, palette: Palette, tab_index: usize) -> (r: LinePart)
    ensures
        r@ == right_more_view(tab_count_to_the_right as int, palette, tab_index),
{
    if tab_count_to_the_right == 0 {
        return LinePart::empty();
    }
    proof {
        reveal_strlit(" ");
        reveal_strlit(" >> ");
        reveal_strlit(" >>> ");
    }
    let more_text = if tab_count_to_the_right < 10 {
        let mut t = String::from_str(" ");
        t.append(digit_str(tab_count_to_the_right));
        t.append(" >> ");
        t
    } else {
        String::from_str(" >>> ")
    };
    assert(more_text@ =~= right_more_text(tab_count_to_the_right as int));
    let more_text_len = text_width(more_text.as_str());
    let more_styled_text = paint(more_text.as_str(), more_text_color(palette), palette.orange, Emphasis::Bold);
    LinePart { part: more_styled_text, len: more_text_len, tab_index: Some(tab_index) }
}


// ---------------------------------------------------------------------------
// Fitting tabs around the active one
// ---------------------------------------------------------------------------

/// What one round of the fitting loop does.
#[derive(Clone, Copy, Debug, PartialEq, Eq, Structural)]
pub enum Growth {
    /// Show one more tab on the left.
    Left,
    /// Show one more tab on the right.
    Right,
    /// No further tab fits: put the markers in and finish.
    Stop,
    /// Not even the markers fit: finish with the tabs shown so far.
    Abort,
}

/// Columns taken, in the given state, by the shown tabs and the markers.
pub open spec fn fit_total(bw: Seq<PartView>, aw: Seq<PartView>, seed: int, kl: int, kr: int, tl: int, tr: int) -> int {
    more_width(bw.len() - kl) + seed + tl + tr + more_width(aw.len() - kr)
}

/// Whether, in the given state, a tab is left on the left and fits once
/// shown. Showing the last folded tab of a side also takes away its marker.
pub open spec fn left_next_fits(
    bw: Seq<PartView>,
    aw: Seq<PartView>,
    seed: int,
    cols: int,
    kl: int,
    kr: int,
    tl: int,
    tr: int,
) -> bool {
    let lc = bw.len() - kl;
    lc > 0 && bw[lc - 1].1 + fit_total(bw, aw, seed, kl, kr, tl, tr) - (if lc == 1 { more_width(lc) } else { 0 }) <= cols
}

/// Whether, in the given state, a tab is left on the right and fits once shown.
pub open spec fn right_next_fits(
    bw: Seq<PartView>,
    aw: Seq<PartView>,
    seed: int,
    cols: int,
    kl: int,
    kr: int,
    tl: int,
    tr: int,
) -> bool {
    let rc = aw.len() - kr;
    rc > 0 && aw[kr].1 + fit_total(bw, aw, seed, kl, kr, tl, tr) - (if rc == 1 { more_width(rc) } else { 0 }) <= cols
}

/// The round of the fitting loop in the state where `kl` tabs of `bw` (taken
/// from its end) and `kr` of `aw` (from its start) are shown, taking `tl` and
/// `tr` columns, around a middle of `seed` columns, in a budget of `cols`.
pub open spec fn fit_step(
    bw: Seq<PartView>,
    aw: Seq<PartView>,
    seed: int,
    cols: int,
    kl: int,
    kr: int,
    tl: int,
    tr: int,
) -> Growth {
    let total = fit_total(bw, aw, seed, kl, kr, tl, tr);
    if total > cols {
        Growth::Abort
    } else {
        let left_fits = left_next_fits(bw, aw, seed, cols, kl, kr, tl, tr);
        let right_fits = right_next_fits(bw, aw, seed, cols, kl, kr, tl, tr);
        if (tl <= tr || !right_fits) && left_fits {
            Growth::Left
        } else if right_fits {
            Growth::Right
        } else {
            Growth::Stop
        }
    }
}

/// The state in which the fitting loop ends, from the given state: how many
/// tabs it shows on each side, and whether it ended by `Stop` or `Abort`.
pub open spec fn fit_end(
    bw: Seq<PartView>,
    aw: Seq<PartView>,
    seed: int,
    cols: int,
    kl: int,
    kr: int,
    tl: int,
    tr: int,
) -> (int, int, Growth)
    decreases bw.len() - kl + aw.len() - kr,
{
    if kl < 0 || kr < 0 || kl >= bw.len() + 1 || kr >= aw.len() + 1 {
        (kl, kr, Growth::Abort)
    } else {
        match fit_step(bw, aw, seed, cols, kl, kr, tl, tr) {
            Growth::Left => fit_end(bw, aw, seed, cols, kl + 1, kr, tl + bw[bw.len() - kl - 1].1, tr),
            Growth::Right => fit_end(bw, aw, seed, cols, kl, kr + 1, tl, tr + aw[kr].1),
            g => (kl, kr, g),
        }
    }
}

/// The fitting loop run from its start: nothing shown beside `seed`.
pub open spec fn fit_outcome(
    before: Seq<PartView>,
    after: Seq<PartView>,
    seed: Seq<PartView>,
    cols: int,
) -> (int, int, Growth) {
    fit_end(before, after, total_len(seed), cols, 0, 0, 0, 0)
}

/// The tabs shown when `kl` of `before` and `kr` of `after` are shown around `seed`.
pub open spec fn shown(before: Seq<PartView>, after: Seq<PartView>, seed: Seq<PartView>, kl: int, kr: int) -> Seq<PartView> {
    before.subrange(before.len() - kl, before.len() as int) + seed + after.subrange(0, kr)
}

/// The parts that the fitting loop leaves: the tabs it shows and, where it
/// ended by `Stop`, a marker at each end for the tabs folded on that side.
pub open spec fn fit_view(
    before: Seq<PartView>,
    after: Seq<PartView>,
    seed: Seq<PartView>,
    cols: int,
    palette: Palette,
) -> Seq<PartView> {
    let (kl, kr, g) = fit_outcome(before, after, seed, cols);
    let lc = before.len() - kl;
    let rc = after.len() - kr;
    let mid = shown(before, after, seed, kl, kr);
    if g == Growth::Stop {
        seq![left_more_view(lc, palette, (if lc > 0 { lc - 1 } else { 0 }) as usize)] + mid
            + seq![right_more_view(rc, palette, (lc + mid.len()) as usize)]
    } else {
        mid
    }
}

proof fn lemma_prefix_len(s: Seq<PartView>, i: int)
    requires
        0 <= i <= s.len(),
    ensures
        total_len(s.take(i)) <= total_len(s),
{
    lemma_total_len_concat(s.take(i), s.skip(i));
    lemma_total_len_nonneg(s.skip(i));
    assert(s.take(i) + s.skip(i) =~= s);
}

/// Columns taken by all of `current_title`.
fn get_current_title_len(current_title: &Vec<LinePart>) -> (r: usize)
    requires
        total_len(views(current_title@)) <= usize::MAX,
    ensures
        r == total_len(views(current_title@)),
{
    let ghost v = views(current_title@);
    let mut sum: usize = 0;
    let mut i: usize = 0;
    while i < current_title.len()
        invariant
            v == views(current_title@),
            total_len(v) <= usize::MAX,
            0 <= i <= current_title.len(),
            sum == total_len(v.take(i as int)),
        decreases current_title.len() - i,
    {
        proof {
            lemma_prefix_len(v, i + 1);
            assert(v.take(i + 1).drop_last() =~= v.take(i as int));
        }
        sum = sum + current_title[i].len;
        i = i + 1;
    }
    assert(v.take(i as int) =~= v);
    sum
}


/// Moves tabs from `tabs_before_active` (from its end) and `tabs_after_active`
/// (from its start) next to the tabs of `tabs_to_render` while they fit in
/// `cols` columns, growing the narrower side first; when no further tab
/// fits, puts a marker for the tabs still folded at each end.
#[verifier::rlimit(50)]
pub fn populate_tabs_in_tab_line(
    tabs_before_active: &mut Vec<LinePart>,
    tabs_after_active: &mut Vec<LinePart>,
    tabs_to_render: &mut Vec<LinePart>,
    cols: usize,
    palette: Palette,
)
    requires
        old(tabs_before_active).len() + old(tabs_after_active).len() + old(tabs_to_render).len() <= usize::MAX,
        total_len(views(old(tabs_to_render)@)) <= usize::MAX,
    ensures
        ({
            let (kl, kr, g) = fit_outcome(
                views(old(tabs_before_active)@),
                views(old(tabs_after_active)@),
                views(old(tabs_to_render)@),
                cols as int,
            );
            &&& 0 <= kl <= old(tabs_before_active).len()
            &&& 0 <= kr <= old(tabs_after_active).len()
            &&& final(tabs_before_active)@ == old(tabs_before_active)@.take(old(tabs_before_active).len() - kl)
            &&& final(tabs_after_active)@ == old(tabs_after_active)@.skip(kr)
        }),
        views(final(tabs_to_render)@) == fit_view(
            views(old(tabs_before_active)@),
            views(old(tabs_after_active)@),
            views(old(tabs_to_render)@),
            cols as int,
            palette,
        ),
        total_len(views(old(tabs_to_render)@)) <= cols ==> total_len(views(final(tabs_to_render)@)) <= cols,
{
    let ghost b0 = tabs_before_active@;
    let ghost a0 = tabs_after_active@;
    let ghost s0 = tabs_to_render@;
    let ghost bw = views(b0);
    let ghost aw = views(a0);
    let ghost sw = views(s0);
    let ghost seed = total_len(sw);
    let ghost nb = b0.len() as int;
    let ghost na = a0.len() as int;
    let ghost mut kl: int = 0;
    let ghost mut kr: int = 0;

    let mut middle_size = get_current_title_len(tabs_to_render);
    let mut total_left: usize = 0;
    let mut total_right: usize = 0;
    let mut done = false;
    while !done
        invariant
            bw == views(b0),
            aw == views(a0),
            sw == views(s0),
            seed == total_len(sw),
            nb == b0.len(),
            na == a0.len(),
            nb + na + s0.len() <= usize::MAX,
            0 <= kl <= nb,
            0 <= kr <= na,
            tabs_before_active@ == b0.take(nb - kl),
            tabs_after_active@ == a0.skip(kr),
            middle_size == seed + total_left + total_right,
            fit_end(bw, aw, seed, cols as int, kl, kr, total_left as int, total_right as int)
                == fit_outcome(bw, aw, sw, cols as int),
            !done ==> tabs_to_render@ == b0.subrange(nb - kl, nb) + s0 + a0.take(kr),
            done ==> fit_outcome(bw, aw, sw, cols as int).0 == kl,
            done ==> fit_outcome(bw, aw, sw, cols as int).1 == kr,
            done ==> views(tabs_to_render@) == fit_view(bw, aw, sw, cols as int, palette),
        decreases tabs_before_active.len() + tabs_after_active.len() + (if done { 0int } else { 1int }),
    {
        let left_count = tabs_before_active.len();
        let right_count = tabs_after_active.len();
        let ghost tl = total_left as int;
        let ghost tr = total_right as int;
        let ghost g = fit_step(bw, aw, seed, cols as int, kl, kr, tl, tr);
        proof {
            assert(views(tabs_to_render@) =~= shown(bw, aw, sw, kl, kr));
            lemma_total_len_nonneg(sw);
        }

        // the tab left of the leftmost shown tab, and right of the rightmost
        let left_more_tab_index = left_count.saturating_sub(1);
        let collapsed_left = left_more_message(left_count, palette, left_more_tab_index);
        let right_more_tab_index = left_count + tabs_to_render.len();
        let collapsed_right = right_more_message(right_count, palette, right_more_tab_index);

        if middle_size > cols || collapsed_left.len + collapsed_right.len > cols - middle_size {
            // not even the markers fit: leave them out
            assert(g == Growth::Abort);
            done = true;
        } else {
            let total_size = collapsed_left.len + middle_size + collapsed_right.len;
            let room = cols - total_size;
            let left_fits = if left_count > 0 {
                let back = if left_count == 1 { collapsed_left.len } else { 0 };
                tabs_before_active[left_count - 1].len <= room + back
            } else {
                false
            };
            let right_fits = if right_count > 0 {
                let back = if right_count == 1 { collapsed_right.len } else { 0 };
                tabs_after_active[0].len <= room + back
            } else {
                false
            };
            proof {
                if left_count > 0 {
                    assert(tabs_before_active@[left_count - 1] == b0[nb - kl - 1]);
                }
                if right_count > 0 {
                    assert(tabs_after_active@[0] == a0[kr]);
                }
            }
            // keep the active tab in the middle: grow the narrower side,
            // or the other one where its next tab does not fit
            if (total_left <= total_right || !right_fits) && left_fits {
                assert(g == Growth::Left);
                let tab = tabs_before_active.pop().unwrap();
                middle_size = middle_size + tab.len;
                total_left = total_left + tab.len;
                tabs_to_render.insert(0, tab);
                proof {
                    kl = kl + 1;
                    assert(tabs_before_active@ =~= b0.take(nb - kl));
                    assert(tabs_to_render@ =~= b0.subrange(nb - kl, nb) + s0 + a0.take(kr));
                }
            } else if right_fits {
                assert(g == Growth::Right);
                let tab = tabs_after_active.remove(0);
                middle_size = middle_size + tab.len;
                total_right = total_right + tab.len;
                tabs_to_render.push(tab);
                proof {
                    kr = kr + 1;
                    assert(tabs_after_active@ =~= a0.skip(kr));
                    assert(tabs_to_render@ =~= b0.subrange(nb - kl, nb) + s0 + a0.take(kr));
                }
            } else {
                // no room for another tab, or none left: put the markers in
                assert(g == Growth::Stop);
                let ghost mid = tabs_to_render@;
                tabs_to_render.insert(0, collapsed_left);
                tabs_to_render.push(collapsed_right);
                proof {
                    assert(views(tabs_to_render@) =~= seq![collapsed_left@] + views(mid) + seq![collapsed_right@]);
                }
                done = true;
            }
        }
    }
    proof {
        if seed <= cols {
            crate::guarantees::lemma_fit_within_budget(bw, aw, sw, cols as int, palette);
        }
    }
}


// ---------------------------------------------------------------------------
// Decorations on both ends of the bar
// ---------------------------------------------------------------------------

/// The name of an input mode, in upper case.
pub open spec fn mode_name(mode: InputMode) -> Seq<char> {
    match mode {
        InputMode::Normal => seq!['N', 'O', 'R', 'M', 'A', 'L'],
        InputMode::Locked => seq!['L', 'O', 'C', 'K', 'E', 'D'],
        InputMode::Resize => seq!['R', 'E', 'S', 'I', 'Z', 'E'],
        InputMode::Pane => seq!['P', 'A', 'N', 'E'],
        InputMode::Tab => seq!['T', 'A', 'B'],
        InputMode::Scroll => seq!['S', 'C', 'R', 'O', 'L', 'L'],
        InputMode::EnterSearch => seq!['E', 'N', 'T', 'E', 'R', 'S', 'E', 'A', 'R', 'C', 'H'],
        InputMode::Search => seq!['S', 'E', 'A', 'R', 'C', 'H'],
        InputMode::RenameTab => seq!['R', 'E', 'N', 'A', 'M', 'E', 'T', 'A', 'B'],
        InputMode::RenamePane => seq!['R', 'E', 'N', 'A', 'M', 'E', 'P', 'A', 'N', 'E'],
        InputMode::Session => seq!['S', 'E', 'S', 'S', 'I', 'O', 'N'],
        InputMode::Move => seq!['M', 'O', 'V', 'E'],
        InputMode::Prompt => seq!['P', 'R', 'O', 'M', 'P', 'T'],
        InputMode::Tmux => seq!['T', 'M', 'U', 'X'],
    }
}

/// Width of the field in which the mode's name is centred.
pub const MODE_FIELD: usize = 8;

/// `n` spaces.
pub open spec fn spaces(n: int) -> Seq<char> {
    Seq::new(n as nat, |i: int| ' ')
}

/// `s` centred in a field of `MODE_FIELD` columns: the padding is split in
/// two, the larger half on the right; a longer text is left as it is.
pub open spec fn centered(s: Seq<char>) -> Seq<char> {
    if s.len() >= MODE_FIELD {
        s
    } else {
        let pad = MODE_FIELD - s.len();
        spaces(pad / 2) + s + spaces(pad - pad / 2)
    }
}

/// The colour of the mode's name: one for locked, one for normal, one for the rest.
pub open spec fn mode_color(mode: InputMode, palette: Palette) -> Color {
    if mode == InputMode::Locked {
        palette.magenta
    } else if mode == InputMode::Normal {
        palette.green
    } else {
        palette.orange
    }
}

/// The part that shows the input mode, on the left end of the bar.
pub open spec fn mode_view(mode: InputMode, palette: Palette) -> PartView {
    let text = centered(mode_name(mode));
    (painted(text, mode_color(mode, palette), back_color(palette), Emphasis::Bold), text.len() as usize, None)
}

/// The text shown for the session: its name, or a placeholder, between spaces.
pub open spec fn session_text(session_name: Option<Seq<char>>) -> Seq<char> {
    let name = match session_name {
        Some(n) => n,
        None => seq!['<', 'u', 'n', 'n', 'a', 'm', 'e', 'd', '>'],
    };
    seq![' '] + name + seq![' ']
}

/// The part that shows the session's name.
pub open spec fn session_view(session_name: Option<Seq<char>>, palette: Palette) -> PartView {
    let text = session_text(session_name);
    (
        painted(text, text_color(palette), back_color(palette), Emphasis::Bold),
        display_width(text) as usize,
        None,
    )
}

/// `x`, or the largest `usize` where `x` is larger.
pub open spec fn clamp_usize(x: int) -> usize {
    if x > usize::MAX {
        usize::MAX
    } else {
        x as usize
    }
}

/// The part that shows the swap layout: its name in upper case between
/// spaces, as wide as that text is on screen.
pub open spec fn swap_view(name: Seq<char>, is_dirty: bool, mode: InputMode, palette: Palette) -> PartView {
    let text = ascii_upper(seq![' '] + name + seq![' ']);
    let (bg, emphasis) = if mode == InputMode::Locked {
        (palette.fg, Emphasis::Italic)
    } else if is_dirty {
        (palette.fg, Emphasis::Bold)
    } else {
        (palette.green, Emphasis::Bold)
    };
    (painted(text, palette.black, bg, emphasis), display_width(text) as usize, None)
}

fn mode_name_str(mode: InputMode) -> (r: &'static str)
    ensures
        r@ == mode_name(mode),
{
    proof {
        reveal_strlit("NORMAL"); reveal_strlit("LOCKED"); reveal_strlit("RESIZE");
        reveal_strlit("PANE"); reveal_strlit("TAB"); reveal_strlit("SCROLL");
        reveal_strlit("ENTERSEARCH"); reveal_strlit("SEARCH"); reveal_strlit("RENAMETAB");
        reveal_strlit("RENAMEPANE"); reveal_strlit("SESSION"); reveal_strlit("MOVE");
        reveal_strlit("PROMPT"); reveal_strlit("TMUX");
    }
    let r = match mode {
        InputMode::Normal => "NORMAL",
        InputMode::Locked => "LOCKED",
        InputMode::Resize => "RESIZE",
        InputMode::Pane => "PANE",
        InputMode::Tab => "TAB",
        InputMode::Scroll => "SCROLL",
        InputMode::EnterSearch => "ENTERSEARCH",
        InputMode::Search => "SEARCH",
        InputMode::RenameTab => "RENAMETAB",
        InputMode::RenamePane => "RENAMEPANE",
        InputMode::Session => "SESSION",
        InputMode::Move => "MOVE",
        InputMode::Prompt => "PROMPT",
        InputMode::Tmux => "TMUX",
    };
    assert(r@ =~= mode_name(mode));
    r
}

fn push_spaces(s: &mut String, n: usize)
    ensures
        final(s)@ == old(s)@ + spaces(n as int),
{
    proof {
        reveal_strlit(" ");
    }
    let mut i: usize = 0;
    while i < n
        invariant
            0 <= i <= n,
            s@ == old(s)@ + spaces(i as int),
        decreases n - i,
    {
        proof {
            reveal_strlit(" ");
        }
        s.append(" ");
        assert(spaces(i + 1) =~= spaces(i as int) + seq![' ']);
        i = i + 1;
        assert(s@ =~= old(s)@ + spaces(i as int));
    }
}

pub(crate) fn back_color_of(palette: Palette) -> (r: Color)
    ensures
        r == back_color(palette),
{
    match palette.theme_hue {
        ThemeHue::Dark => palette.black,
        ThemeHue::Light => palette.white,
    }
}

/// The part that shows the session's name, or a placeholder where there is none.
pub fn session_part(session_name: Option<&str>, palette: Palette) -> (r: LinePart)
    ensures
        r@ == session_view(
            match session_name {
                Some(n) => Some(n@),
                None => None,
            },
            palette,
        ),
{
    proof {
        reveal_strlit("<unnamed>");
        reveal_strlit(" ");
    }
    let name = match session_name {
        Some(n) => n,
        None => "<unnamed>",
    };
    let mut name_part = String::from_str(" ");
    name_part.append(name);
    name_part.append(" ");
    let ghost sv: Option<Seq<char>> = match session_name {
        Some(n) => Some(n@),
        None => None,
    };
    assert(name_part@ =~= session_text(sv));
    let name_part_len = text_width(name_part.as_str());
    let styled = paint(name_part.as_str(), more_text_color(palette), back_color_of(palette), Emphasis::Bold);
    LinePart { part: styled, len: name_part_len, tab_index: None }
}

/// The part that shows the input mode, its name centred in a field of eight columns.
pub fn mode_part(mode: InputMode, palette: Palette) -> (r: LinePart)
    ensures
        r@ == mode_view(mode, palette),
{
    let name = mode_name_str(mode);
    let n = name.unicode_len();
    let mut padded = String::new();
    if n < MODE_FIELD {
        let pad = MODE_FIELD - n;
        push_spaces(&mut padded, pad / 2);
        padded.append(name);
        push_spaces(&mut padded, pad - pad / 2);
    } else {
        padded.append(name);
    }
    let ghost text = centered(mode_name(mode));
    assert(padded@ =~= text);
    assert(is_printable_ascii(text));
    let mode_part_len = text_width(padded.as_str());
    let color = if mode == InputMode::Locked {
        palette.magenta
    } else if mode == InputMode::Normal {
        palette.green
    } else {
        palette.orange
    };
    let styled = paint(padded.as_str(), color, back_color_of(palette), Emphasis::Bold);
    LinePart { part: styled, len: mode_part_len, tab_index: None }
}

/// The part that shows the active swap layout, if there is one.
pub fn swap_layout_status(
    swap_layout_name: &Option<String>,
    is_swap_layout_damaged: bool,
    input_mode: InputMode,
    palette: &Palette,
) -> (r: Option<LinePart>)
    ensures
        match swap_layout_name {
            Some(n) => r is Some && r->0@ == swap_view(n@, is_swap_layout_damaged, input_mode, *palette),
            None => r is None,
        },
{
    match swap_layout_name {
        Some(swap_layout_name) => {
            proof {
                reveal_strlit(" ");
            }
            let mut spaced = String::from_str(" ");
            spaced.append(swap_layout_name.as_str());
            spaced.append(" ");
            let text = ascii_uppercase(spaced.as_str());
            let swap_layout_name_len = text_width(text.as_str());
            let (bg, emphasis) = if input_mode == InputMode::Locked {
                (palette.fg, Emphasis::Italic)
            } else if is_swap_layout_damaged {
                (palette.fg, Emphasis::Bold)
            } else {
                (palette.green, Emphasis::Bold)
            };
            assert(spaced@ =~= seq![' '] + swap_layout_name@ + seq![' ']);
            let styled = paint(text.as_str(), palette.black, bg, emphasis);
            Some(LinePart { part: styled, len: swap_layout_name_len, tab_index: None })
        },
        None => None,
    }
}


// ---------------------------------------------------------------------------
// The whole bar
// ---------------------------------------------------------------------------

/// The decorations offered for the right end: the swap layout, if any, then the session.
pub open spec fn right_candidates(
    session_name: Option<Seq<char>>,
    palette: Palette,
    mode: InputMode,
    swap_layout_name: Option<Seq<char>>,
    is_swap_layout_dirty: bool,
) -> Seq<PartView> {
    let swap = match swap_layout_name {
        Some(n) => seq![swap_view(n, is_swap_layout_dirty, mode, palette)],
        None => Seq::empty(),
    };
    swap + seq![session_view(session_name, palette)]
}

/// `parts` without as many of its first elements as must go for `base`
/// columns and the rest to fit in `cols`.
pub open spec fn trim_right(parts: Seq<PartView>, base: int, cols: int) -> Seq<PartView>
    decreases parts.len(),
{
    if parts.len() > 0 && base + total_len(parts) > cols {
        trim_right(parts.drop_first(), base, cols)
    } else {
        parts
    }
}

/// The bar for the tabs `tabs`, of which the one at `idx` is active, in
/// `cols` columns: the mode, then the tabs that fit around the active one,
/// then what fits of the swap layout and the session. Only the mode where
/// not even it and the active tab fit.
pub open spec fn bar_view(
    session_name: Option<Seq<char>>,
    tabs: Seq<PartView>,
    idx: int,
    cols: int,
    palette: Palette,
    mode: InputMode,
    swap_layout_name: Option<Seq<char>>,
    is_swap_layout_dirty: bool,
) -> Seq<PartView> {
    let active = tabs[idx];
    let left = mode_view(mode, palette);
    if left.1 + active.1 > cols {
        seq![left]
    } else {
        let right = trim_right(
            right_candidates(session_name, palette, mode, swap_layout_name, is_swap_layout_dirty),
            left.1 + active.1,
            cols,
        );
        seq![left] + fit_view(tabs.take(idx), tabs.skip(idx + 1), seq![active], cols - (left.1 + total_len(right)), palette)
            + right
    }
}

/// The view of an optional string slice.
pub open spec fn str_opt_view(s: Option<&str>) -> Option<Seq<char>> {
    match s {
        Some(n) => Some(n@),
        None => None,
    }
}

/// The view of an optional string.
pub open spec fn string_opt_view(s: Option<String>) -> Option<Seq<char>> {
    match s {
        Some(n) => Some(n@),
        None => None,
    }
}

/// Whether `base` columns and all of `parts` fit in `cols`.
fn fits_within(base: usize, parts: &Vec<LinePart>, cols: usize) -> (r: bool)
    ensures
        r == (base + total_len(views(parts@)) <= cols),
{
    let ghost v = views(parts@);
    if base > cols {
        proof {
            lemma_total_len_nonneg(v);
        }
        return false;
    }
    let mut room = cols - base;
    let mut i: usize = 0;
    while i < parts.len()
        invariant
            v == views(parts@),
            base <= cols,
            0 <= i <= parts.len(),
            room == cols - base - total_len(v.take(i as int)),
        decreases parts.len() - i,
    {
        assert(v.take(i + 1).drop_last() =~= v.take(i as int));
        if parts[i].len > room {
            proof {
                lemma_total_len_concat(v.take(i + 1), v.skip(i + 1));
                lemma_total_len_nonneg(v.skip(i + 1));
                assert(v.take(i + 1) + v.skip(i + 1) =~= v);
            }
            return false;
        }
        room = room - parts[i].len;
        i = i + 1;
    }
    assert(v.take(i as int) =~= v);
    true
}

/// The bar for `all_tabs`, of which the one at `active_tab_index` is active,
/// in `cols` columns: the mode, the tabs that fit around the active one with
/// markers for those folded, and what fits of the swap layout and session.
pub fn bar_line(
    session_name: Option<&str>,
    all_tabs: Vec<LinePart>,
    active_tab_index: usize,
    cols: usize,
    palette: Palette,
    mode: InputMode,
    active_swap_layout_name: &Option<String>,
    is_swap_layout_dirty: bool,
) -> (r: Vec<LinePart>)
    requires
        active_tab_index < all_tabs.len(),
    ensures
        views(r@) == bar_view(
            str_opt_view(session_name),
            views(all_tabs@),
            active_tab_index as int,
            cols as int,
            palette,
            mode,
            string_opt_view(*active_swap_layout_name),
            is_swap_layout_dirty,
        ),
{
    let ghost tabs = views(all_tabs@);
    let mut all_tabs = all_tabs;
    let mut tabs_after_active = all_tabs.split_off(active_tab_index);
    let mut tabs_before_active = all_tabs;
    let active_tab = tabs_after_active.remove(0);
    proof {
        assert(views(tabs_before_active@) =~= tabs.take(active_tab_index as int));
        assert(views(tabs_after_active@) =~= tabs.skip(active_tab_index + 1));
        assert(active_tab@ == tabs[active_tab_index as int]);
    }

    let mode_part = mode_part(mode, palette);
    let left_len = mode_part.len;
    if active_tab.len > cols || left_len > cols - active_tab.len {
        // not even the mode and the active tab fit
        let r = vec![mode_part];
        assert(views(r@) =~= seq![mode_part@]);
        return r;
    }

    let ghost sv = str_opt_view(session_name);
    let ghost wv = string_opt_view(*active_swap_layout_name);
    let mut right_parts: Vec<LinePart> = Vec::new();
    match swap_layout_status(active_swap_layout_name, is_swap_layout_dirty, mode, &palette) {
        Some(p) => right_parts.push(p),
        None => {},
    }
    right_parts.push(session_part(session_name, palette));
    let ghost candidates = right_candidates(sv, palette, mode, wv, is_swap_layout_dirty);
    assert(views(right_parts@) =~= candidates);

    let base = left_len + active_tab.len;
    while right_parts.len() > 0 && !fits_within(base, &right_parts, cols)
        invariant
            trim_right(views(right_parts@), base as int, cols as int) == trim_right(candidates, base as int, cols as int),
        decreases right_parts.len(),
    {
        let ghost before_removal = views(right_parts@);
        right_parts.remove(0);
        assert(views(right_parts@) =~= before_removal.drop_first());
    }
    let ghost right = views(right_parts@);
    assert(right == trim_right(candidates, base as int, cols as int));
    proof {
        lemma_total_len_nonneg(right);
    }
    let right_len = get_current_title_len(&right_parts);

    let mut tabs_to_render = vec![active_tab];
    proof {
        assert(views(tabs_to_render@) =~= seq![active_tab@]);
        assert(seq![active_tab@].drop_last() =~= Seq::<PartView>::empty());
        assert(total_len(Seq::<PartView>::empty()) == 0);
        assert(total_len(seq![active_tab@]) == active_tab.len);
    }
    populate_tabs_in_tab_line(
        &mut tabs_before_active,
        &mut tabs_after_active,
        &mut tabs_to_render,
        cols - (left_len + right_len),
        palette,
    );
    let ghost fitted = views(tabs_to_render@);
    let mut line = vec![mode_part];
    line.append(&mut tabs_to_render);
    line.append(&mut right_parts);
    assert(views(line@) =~= seq![mode_part@] + fitted + right);
    line
}

} // verus!

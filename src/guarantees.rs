//! What holds of every bar that the fitting loop and the composer make.

use vstd::prelude::*;
use crate::part::{lemma_total_len_concat, lemma_total_len_nonneg, total_len, InputMode, Palette, PartView};
use crate::line::{
    bar_view, digit_char, fit_end, fit_outcome, fit_step, fit_total, fit_view, left_more_text,
    left_next_fits, left_more_view, mode_view, more_width, right_candidates, right_more_text,
    right_more_view, right_next_fits, shown, trim_right, Growth,
};

verus! {

proof fn lemma_prepend_len(x: PartView, s: Seq<PartView>)
    ensures
        total_len(seq![x] + s) == x.1 + total_len(s),
{
    lemma_total_len_concat(seq![x], s);
    assert(seq![x].drop_last() =~= Seq::<PartView>::empty());
    assert(total_len(Seq::<PartView>::empty()) == 0);
    assert(total_len(seq![x]) == x.1);
}

proof fn lemma_fit_end_fits(
    bw: Seq<PartView>,
    aw: Seq<PartView>,
    seed: int,
    cols: int,
    kl: int,
    kr: int,
    tl: int,
    tr: int,
)
    requires
        0 <= kl <= bw.len(),
        0 <= kr <= aw.len(),
        tl == total_len(bw.subrange(bw.len() - kl, bw.len() as int)),
        tr == total_len(aw.take(kr)),
        seed + tl + tr <= cols,
    ensures
        ({
            let (kl2, kr2, g) = fit_end(bw, aw, seed, cols, kl, kr, tl, tr);
            let t2 = seed + total_len(bw.subrange(bw.len() - kl2, bw.len() as int)) + total_len(aw.take(kr2));
            &&& 0 <= kl2 <= bw.len()
            &&& 0 <= kr2 <= aw.len()
            &&& t2 <= cols
            &&& g == Growth::Stop ==> more_width(bw.len() - kl2) + t2 + more_width(aw.len() - kr2) <= cols
            &&& g == Growth::Stop || g == Growth::Abort
        }),
    decreases bw.len() - kl + aw.len() - kr,
{
    let nb = bw.len() as int;
    match fit_step(bw, aw, seed, cols, kl, kr, tl, tr) {
        Growth::Left => {
            let x = bw[nb - kl - 1];
            assert(bw.subrange(nb - (kl + 1), nb) =~= seq![x] + bw.subrange(nb - kl, nb));
            lemma_prepend_len(x, bw.subrange(nb - kl, nb));
            lemma_fit_end_fits(bw, aw, seed, cols, kl + 1, kr, tl + x.1, tr);
        },
        Growth::Right => {
            assert(aw.take(kr + 1).drop_last() =~= aw.take(kr));
            lemma_fit_end_fits(bw, aw, seed, cols, kl, kr + 1, tl, tr + aw[kr].1);
        },
        _ => {},
    }
}

/// The parts left by the fitting loop never take more than `cols` columns
/// where the parts it starts from fit.
pub proof fn lemma_fit_within_budget(
    before: Seq<PartView>,
    after: Seq<PartView>,
    seed: Seq<PartView>,
    cols: int,
    palette: Palette,
)
    requires
        total_len(seed) <= cols,
    ensures
        total_len(fit_view(before, after, seed, cols, palette)) <= cols,
{
    let nb = before.len() as int;
    assert(before.subrange(nb, nb) =~= Seq::<PartView>::empty());
    assert(after.take(0) =~= Seq::<PartView>::empty());
    lemma_fit_end_fits(before, after, total_len(seed), cols, 0, 0, 0, 0);
    let (kl, kr, g) = fit_outcome(before, after, seed, cols);
    let l = before.subrange(nb - kl, nb);
    let r = after.take(kr);
    let mid = shown(before, after, seed, kl, kr);
    lemma_total_len_concat(l, seed);
    lemma_total_len_concat(l + seed, r);
    if g == Growth::Stop {
        let lc = nb - kl;
        let rc = after.len() - kr;
        let lm = left_more_view(lc, palette, (if lc > 0 { lc - 1 } else { 0 }) as usize);
        let rm = right_more_view(rc, palette, (lc + mid.len()) as usize);
        lemma_prepend_len(lm, mid);
        lemma_total_len_concat(seq![lm] + mid, seq![rm]);
        lemma_prepend_len(rm, Seq::<PartView>::empty());
        assert(seq![rm] =~= seq![rm] + Seq::<PartView>::empty());
    }
}

proof fn lemma_trim_right(parts: Seq<PartView>, base: int, cols: int)
    ensures
        ({
            let r = trim_right(parts, base, cols);
            r.len() == 0 || base + total_len(r) <= cols
        }),
    decreases parts.len(),
{
    if parts.len() > 0 && base + total_len(parts) > cols {
        lemma_trim_right(parts.drop_first(), base, cols);
    }
}

/// The bar never takes more columns than it is given, but where not even the
/// mode and the active tab fit: then it is the mode alone.
pub proof fn lemma_bar_within_budget(
    session_name: Option<Seq<char>>,
    tabs: Seq<PartView>,
    idx: int,
    cols: int,
    palette: Palette,
    mode: InputMode,
    swap_layout_name: Option<Seq<char>>,
    is_swap_layout_dirty: bool,
)
    requires
        0 <= idx < tabs.len(),
    ensures
        ({
            let bar = bar_view(session_name, tabs, idx, cols, palette, mode, swap_layout_name, is_swap_layout_dirty);
            if mode_view(mode, palette).1 + tabs[idx].1 > cols {
                bar == seq![mode_view(mode, palette)]
            } else {
                total_len(bar) <= cols
            }
        }),
{
    let left = mode_view(mode, palette);
    let active = tabs[idx];
    if left.1 + active.1 <= cols {
        let base = left.1 + active.1;
        let right = trim_right(
            right_candidates(session_name, palette, mode, swap_layout_name, is_swap_layout_dirty),
            base,
            cols,
        );
        lemma_trim_right(
            right_candidates(session_name, palette, mode, swap_layout_name, is_swap_layout_dirty),
            base,
            cols,
        );
        lemma_total_len_nonneg(right);
        let budget = cols - (left.1 + total_len(right));
        lemma_prepend_len(active, Seq::<PartView>::empty());
        assert(seq![active] =~= seq![active] + Seq::<PartView>::empty());
        let fitted = fit_view(tabs.take(idx), tabs.skip(idx + 1), seq![active], budget, palette);
        lemma_fit_within_budget(tabs.take(idx), tabs.skip(idx + 1), seq![active], budget, palette);
        lemma_prepend_len(left, fitted);
        lemma_total_len_concat(seq![left] + fitted, right);
    }
}

/// A round grows a side only where the other side is not narrower with a
/// next tab that fits, and it stops only where neither side's next tab fits.
pub proof fn lemma_grows_narrower_side(
    bw: Seq<PartView>,
    aw: Seq<PartView>,
    seed: int,
    cols: int,
    kl: int,
    kr: int,
    tl: int,
    tr: int,
)
    ensures
        fit_step(bw, aw, seed, cols, kl, kr, tl, tr) == Growth::Left ==> left_next_fits(bw, aw, seed, cols, kl, kr, tl, tr)
            && (tl <= tr || !right_next_fits(bw, aw, seed, cols, kl, kr, tl, tr)),
        fit_step(bw, aw, seed, cols, kl, kr, tl, tr) == Growth::Right ==> right_next_fits(bw, aw, seed, cols, kl, kr, tl, tr)
            && (tr < tl || !left_next_fits(bw, aw, seed, cols, kl, kr, tl, tr)),
        fit_step(bw, aw, seed, cols, kl, kr, tl, tr) == Growth::Stop ==> !left_next_fits(bw, aw, seed, cols, kl, kr, tl, tr)
            && !right_next_fits(bw, aw, seed, cols, kl, kr, tl, tr),
        fit_step(bw, aw, seed, cols, kl, kr, tl, tr) == Growth::Abort <==> fit_total(bw, aw, seed, kl, kr, tl, tr) > cols,
{
}

/// Where the fitting loop ends in a state whose tabs and markers fit in the
/// budget, and with `k > 0` tabs folded on the left, the first part is the marker painted from a text that
/// holds the count `k`, or `<<<` where `k` is ten or more; the same on the
/// right with the last part.
pub proof fn lemma_markers_show_counts(
    before: Seq<PartView>,
    after: Seq<PartView>,
    seed: Seq<PartView>,
    cols: int,
    palette: Palette,
)
    requires
        end_total(before, after, seed, cols) <= cols,
    ensures
        ({
            let (kl, kr, g) = fit_outcome(before, after, seed, cols);
            let r = fit_view(before, after, seed, cols, palette);
            let k = before.len() - kl;
            let m = after.len() - kr;
            &&& k > 0 ==> r[0] == left_more_view(k, palette, (k - 1) as usize)
            &&& 0 < k < 10 ==> left_more_text(k) == seq![' ', '<', '<', ' '] + seq![digit_char(k)] + seq![' ']
            &&& k >= 10 ==> left_more_text(k) == seq![' ', '<', '<', '<', ' ']
            &&& m > 0 ==> r[r.len() - 1] == right_more_view(m, palette, (before.len() + seed.len() + kr) as usize)
            &&& 0 < m < 10 ==> right_more_text(m) == seq![' '] + seq![digit_char(m)] + seq![' ', '>', '>', ' ']
            &&& m >= 10 ==> right_more_text(m) == seq![' ', '>', '>', '>', ' ']
        }),
{
    let nb = before.len() as int;
    lemma_fit_steady_state(before, after, seed, cols);
    let (kl, kr, g) = fit_outcome(before, after, seed, cols);
    let k = nb - kl;
    let m = after.len() - kr;
    assert(left_more_text(k) =~= if 0 < k < 10 {
        seq![' ', '<', '<', ' '] + seq![digit_char(k)] + seq![' ']
    } else {
        left_more_text(k)
    });
    assert(right_more_text(m) =~= if 0 < m < 10 {
        seq![' '] + seq![digit_char(m)] + seq![' ', '>', '>', ' ']
    } else {
        right_more_text(m)
    });
}

proof fn lemma_fit_end_fits_shape(
    bw: Seq<PartView>,
    aw: Seq<PartView>,
    seed: int,
    cols: int,
    kl: int,
    kr: int,
    tl: int,
    tr: int,
)
    requires
        0 <= kl <= bw.len(),
        0 <= kr <= aw.len(),
    ensures
        ({
            let (kl2, kr2, g) = fit_end(bw, aw, seed, cols, kl, kr, tl, tr);
            &&& kl <= kl2 <= bw.len()
            &&& kr <= kr2 <= aw.len()
            &&& g == Growth::Stop || g == Growth::Abort
        }),
    decreases bw.len() - kl + aw.len() - kr,
{
    match fit_step(bw, aw, seed, cols, kl, kr, tl, tr) {
        Growth::Left => {
            lemma_fit_end_fits_shape(bw, aw, seed, cols, kl + 1, kr, tl + bw[bw.len() - kl - 1].1, tr);
        },
        Growth::Right => {
            lemma_fit_end_fits_shape(bw, aw, seed, cols, kl, kr + 1, tl, tr + aw[kr].1);
        },
        _ => {},
    }
}

/// The bar is a function of its inputs: two bars made from the same inputs
/// are the same, text for text, width for width, tab for tab.
pub proof fn lemma_bar_deterministic(
    session_name: Option<Seq<char>>,
    tabs: Seq<PartView>,
    idx: int,
    cols: int,
    palette: Palette,
    mode: InputMode,
    swap_layout_name: Option<Seq<char>>,
    is_swap_layout_dirty: bool,
    first: Seq<PartView>,
    second: Seq<PartView>,
)
    requires
        first == bar_view(session_name, tabs, idx, cols, palette, mode, swap_layout_name, is_swap_layout_dirty),
        second == bar_view(session_name, tabs, idx, cols, palette, mode, swap_layout_name, is_swap_layout_dirty),
    ensures
        first.len() == second.len(),
        forall|i: int| 0 <= i < first.len() ==> first[i] == second[i],
{
}

proof fn lemma_right_only_monotone(
    bw: Seq<PartView>,
    aw: Seq<PartView>,
    seed: int,
    narrow: int,
    wide: int,
    kr: int,
    tl: int,
    tr: int,
)
    requires
        narrow <= wide,
        0 <= kr <= aw.len(),
    ensures
        fit_end(bw, aw, seed, narrow, bw.len() as int, kr, tl, tr).1 <= fit_end(bw, aw, seed, wide, bw.len() as int, kr, tl, tr).1,
    decreases aw.len() - kr,
{
    let nb = bw.len() as int;
    lemma_fit_end_fits_shape(bw, aw, seed, wide, nb, kr, tl, tr);
    if fit_step(bw, aw, seed, narrow, nb, kr, tl, tr) == Growth::Right {
        assert(fit_step(bw, aw, seed, wide, nb, kr, tl, tr) == Growth::Right);
        lemma_right_only_monotone(bw, aw, seed, narrow, wide, kr + 1, tl, tr + aw[kr].1);
    }
}

proof fn lemma_left_only_monotone(
    bw: Seq<PartView>,
    aw: Seq<PartView>,
    seed: int,
    narrow: int,
    wide: int,
    kl: int,
    tl: int,
    tr: int,
)
    requires
        narrow <= wide,
        0 <= kl <= bw.len(),
    ensures
        fit_end(bw, aw, seed, narrow, kl, aw.len() as int, tl, tr).0 <= fit_end(bw, aw, seed, wide, kl, aw.len() as int, tl, tr).0,
    decreases bw.len() - kl,
{
    let na = aw.len() as int;
    lemma_fit_end_fits_shape(bw, aw, seed, wide, kl, na, tl, tr);
    if fit_step(bw, aw, seed, narrow, kl, na, tl, tr) == Growth::Left {
        assert(fit_step(bw, aw, seed, wide, kl, na, tl, tr) == Growth::Left);
        lemma_left_only_monotone(bw, aw, seed, narrow, wide, kl + 1, tl + bw[bw.len() - kl - 1].1, tr);
    }
}

/// Where all tabs but the active one stand on one side of it, a larger
/// budget never shows fewer of them.
pub proof fn lemma_one_sided_budget_monotone(
    before: Seq<PartView>,
    after: Seq<PartView>,
    seed: Seq<PartView>,
    narrow: int,
    wide: int,
)
    requires
        narrow <= wide,
        before.len() == 0 || after.len() == 0,
    ensures
        fit_outcome(before, after, seed, narrow).0 + fit_outcome(before, after, seed, narrow).1
            <= fit_outcome(before, after, seed, wide).0 + fit_outcome(before, after, seed, wide).1,
{
    let s = total_len(seed);
    lemma_fit_end_fits_shape(before, after, s, narrow, 0, 0, 0, 0);
    lemma_fit_end_fits_shape(before, after, s, wide, 0, 0, 0, 0);
    if before.len() == 0 {
        lemma_right_only_monotone(before, after, s, narrow, wide, 0, 0, 0);
    } else {
        lemma_left_only_monotone(before, after, s, narrow, wide, 0, 0, 0);
    }
}

/// Columns taken by the state in which the fitting loop ends: the tabs it
/// shows and the markers for those it folds.
pub open spec fn end_total(before: Seq<PartView>, after: Seq<PartView>, seed: Seq<PartView>, cols: int) -> int {
    let (kl, kr, g) = fit_outcome(before, after, seed, cols);
    more_width(before.len() - kl) + total_len(shown(before, after, seed, kl, kr)) + more_width(after.len() - kr)
}

proof fn lemma_fit_end_last_step(
    bw: Seq<PartView>,
    aw: Seq<PartView>,
    seed: int,
    cols: int,
    kl: int,
    kr: int,
    tl: int,
    tr: int,
)
    requires
        0 <= kl <= bw.len(),
        0 <= kr <= aw.len(),
        tl == total_len(bw.subrange(bw.len() - kl, bw.len() as int)),
        tr == total_len(aw.take(kr)),
    ensures
        ({
            let (kl2, kr2, g) = fit_end(bw, aw, seed, cols, kl, kr, tl, tr);
            fit_step(
                bw,
                aw,
                seed,
                cols,
                kl2,
                kr2,
                total_len(bw.subrange(bw.len() - kl2, bw.len() as int)),
                total_len(aw.take(kr2)),
            ) == g
        }),
    decreases bw.len() - kl + aw.len() - kr,
{
    let nb = bw.len() as int;
    match fit_step(bw, aw, seed, cols, kl, kr, tl, tr) {
        Growth::Left => {
            let x = bw[nb - kl - 1];
            assert(bw.subrange(nb - (kl + 1), nb) =~= seq![x] + bw.subrange(nb - kl, nb));
            lemma_prepend_len(x, bw.subrange(nb - kl, nb));
            lemma_fit_end_last_step(bw, aw, seed, cols, kl + 1, kr, tl + x.1, tr);
        },
        Growth::Right => {
            assert(aw.take(kr + 1).drop_last() =~= aw.take(kr));
            lemma_fit_end_last_step(bw, aw, seed, cols, kl, kr + 1, tl, tr + aw[kr].1);
        },
        _ => {},
    }
}

/// The fitting loop ends by `Abort` exactly where its final state, markers
/// included, does not fit in the budget; otherwise it ends by `Stop`, in a
/// steady state where the next tab of neither side fits.
pub proof fn lemma_fit_steady_state(before: Seq<PartView>, after: Seq<PartView>, seed: Seq<PartView>, cols: int)
    ensures
        ({
            let (kl, kr, g) = fit_outcome(before, after, seed, cols);
            let nb = before.len() as int;
            let tl = total_len(before.subrange(nb - kl, nb));
            let tr = total_len(after.take(kr));
            &&& 0 <= kl <= before.len()
            &&& 0 <= kr <= after.len()
            &&& g == Growth::Stop || g == Growth::Abort
            &&& g == Growth::Abort <==> end_total(before, after, seed, cols) > cols
            &&& g == Growth::Stop ==> !left_next_fits(before, after, total_len(seed), cols, kl, kr, tl, tr)
                && !right_next_fits(before, after, total_len(seed), cols, kl, kr, tl, tr)
        }),
{
    let nb = before.len() as int;
    let s = total_len(seed);
    assert(before.subrange(nb, nb) =~= Seq::<PartView>::empty());
    assert(after.take(0) =~= Seq::<PartView>::empty());
    assert(total_len(Seq::<PartView>::empty()) == 0);
    lemma_fit_end_fits_shape(before, after, s, cols, 0, 0, 0, 0);
    lemma_fit_end_last_step(before, after, s, cols, 0, 0, 0, 0);
    let (kl, kr, g) = fit_outcome(before, after, seed, cols);
    let l = before.subrange(nb - kl, nb);
    let r = after.take(kr);
    lemma_total_len_concat(l, seed);
    lemma_total_len_concat(l + seed, r);
    assert(total_len(shown(before, after, seed, kl, kr)) == total_len(l) + s + total_len(r));
    assert(fit_total(before, after, s, kl, kr, total_len(l), total_len(r)) == end_total(before, after, seed, cols));
}

} // verus!

//! The values the bar is made of: colours, a palette, input modes, tabs and
//! the rendered pieces of the line.

use vstd::prelude::*;

verus! {

/// A terminal colour: true colour, or one of the 256 indexed colours.
#[derive(Clone, Copy, Debug, PartialEq, Eq, Structural)]
pub enum Color {
    Rgb(u8, u8, u8),
    EightBit(u8),
}

/// Whether the terminal theme is dark or light.
#[derive(Clone, Copy, Debug, PartialEq, Eq, Structural)]
pub enum ThemeHue {
    Dark,
    Light,
}

/// How a piece of text is emphasised when painted.
#[derive(Clone, Copy, Debug, PartialEq, Eq, Structural)]
pub enum Emphasis {
    Plain,
    Bold,
    Italic,
}

/// The colours of the host's theme.
#[derive(Clone, Copy, Debug, PartialEq, Eq, Structural)]
pub struct Palette {
    pub theme_hue: ThemeHue,
    pub fg: Color,
    pub bg: Color,
    pub black: Color,
    pub red: Color,
    pub green: Color,
    pub yellow: Color,
    pub blue: Color,
    pub magenta: Color,
    pub cyan: Color,
    pub white: Color,
    pub orange: Color,
    pub gray: Color,
    pub purple: Color,
    pub gold: Color,
    pub silver: Color,
    pub pink: Color,
    pub brown: Color,
}

/// The input mode of the terminal multiplexer.
#[derive(Clone, Copy, Debug, PartialEq, Eq, Structural)]
pub enum InputMode {
    Normal,
    Locked,
    Resize,
    Pane,
    Tab,
    Scroll,
    EnterSearch,
    Search,
    RenameTab,
    RenamePane,
    Session,
    Move,
    Prompt,
    Tmux,
}

/// Identifier of a client attached to the session.
pub type ClientId = u16;

/// What the bar reads of one tab.
pub struct TabInfo {
    pub position: usize,
    pub active: bool,
    pub is_sync_panes_active: bool,
    pub other_focused_clients: Vec<ClientId>,
}

/// One rendered piece of the bar: styled text, the number of columns it
/// takes on screen, and the tab a click on it leads to, if any.
pub struct LinePart {
    pub part: String,
    pub len: usize,
    pub tab_index: Option<usize>,
}

/// What a [`LinePart`] is, mathematically: its text, its width, its tab.
pub type PartView = (Seq<char>, usize, Option<usize>);

impl View for LinePart {
    type V = PartView;

    open spec fn view(&self) -> PartView {
        (self.part@, self.len, self.tab_index)
    }
}

/// The views of a sequence of parts.
pub open spec fn views(s: Seq<LinePart>) -> Seq<PartView> {
    s.map_values(|p: LinePart| p@)
}

/// The number of columns a sequence of parts takes.
pub open spec fn total_len(s: Seq<PartView>) -> int
    decreases s.len(),
{
    if s.len() == 0 {
        0
    } else {
        total_len(s.drop_last()) + s.last().1
    }
}

/// The empty part: no text, no width, no tab.
pub open spec fn empty_view() -> PartView {
    (Seq::empty(), 0, None)
}

impl LinePart {
    /// A part with no text and no width.
    pub fn empty() -> (r: LinePart)
        ensures
            r@ == empty_view(),
    {
        LinePart { part: String::new(), len: 0, tab_index: None }
    }
}

/// Columns taken by `a + b` are those of `a` and those of `b`.
pub proof fn lemma_total_len_concat(a: Seq<PartView>, b: Seq<PartView>)
    ensures
        total_len(a + b) == total_len(a) + total_len(b),
    decreases b.len(),
{
    if b.len() == 0 {
        assert(a + b =~= a);
    } else {
        lemma_total_len_concat(a, b.drop_last());
        assert((a + b).drop_last() =~= a + b.drop_last());
    }
}

/// No part has a negative width, so neither has a sequence of them.
pub proof fn lemma_total_len_nonneg(s: Seq<PartView>)
    ensures
        total_len(s) >= 0,
    decreases s.len(),
{
    if s.len() > 0 {
        lemma_total_len_nonneg(s.drop_last());
    }
}

} // verus!

//! What the bar plugin does on each event from the host: what it keeps,
//! whether it draws again, and which tab it asks the host to switch to.

use vstd::prelude::*;

verus! {

/// What the plugin remembers between events, beside the tabs and mode
/// themselves, which the host's own values carry.
#[derive(Clone, Copy, Debug, PartialEq, Eq, Structural)]
pub struct BarState {
    /// Position of the active tab, counted from 1; 0 before any tab is known.
    pub active_tab_idx: usize,
    /// How many tabs there are.
    pub tab_count: usize,
    /// Column of the last click on the bar.
    pub mouse_click_pos: usize,
    /// Whether a click asks for another tab.
    pub should_change_tab: bool,
}

/// An event from the host, as far as the plugin reads it.
#[derive(Clone, Copy, Debug, PartialEq, Eq, Structural)]
pub enum BarEvent {
    /// The input mode changed; `differs` tells whether it is not the one kept.
    ModeUpdate { differs: bool },
    /// The tabs changed: the index of the active one, if one is, whether the
    /// tabs are not those kept, and how many there are.
    TabUpdate { active_index: Option<usize>, differs: bool, tab_count: usize },
    /// A left click at a column of the bar.
    LeftClick(usize),
    ScrollUp,
    ScrollDown,
    /// An event that the plugin does not handle.
    Other,
}

/// What the plugin does in answer to an event.
#[derive(Clone, Copy, Debug, PartialEq, Eq, Structural)]
pub struct Reaction {
    pub should_render: bool,
    /// Keep the new mode.
    pub store_mode: bool,
    /// Keep the new tabs.
    pub store_tabs: bool,
    /// Ask the host to switch to this tab, counted from 1.
    pub switch_to: Option<u32>,
}

/// The reaction to `event` from `state`, and the state that follows.
pub open spec fn step(state: BarState, event: BarEvent) -> (BarState, Reaction) {
    let none = Reaction { should_render: false, store_mode: false, store_tabs: false, switch_to: None };
    match event {
        BarEvent::ModeUpdate { differs } => {
            (state, Reaction { should_render: differs, store_mode: differs, ..none })
        },
        BarEvent::TabUpdate { active_index, differs, tab_count } => match active_index {
            Some(i) => {
                let idx = i + 1;
                (
                    BarState { active_tab_idx: idx as usize, tab_count, ..state },
                    Reaction { should_render: state.active_tab_idx != idx || differs, store_tabs: true, ..none },
                )
            },
            None => (state, none),
        },
        BarEvent::LeftClick(col) => {
            if state.mouse_click_pos != col {
                (
                    BarState { mouse_click_pos: col, should_change_tab: true, ..state },
                    Reaction { should_render: true, ..none },
                )
            } else {
                (state, none)
            }
        },
        BarEvent::ScrollUp => {
            let next = if state.active_tab_idx + 1 < state.tab_count { state.active_tab_idx + 1 } else { state.tab_count as int };
            (state, Reaction { should_render: true, switch_to: Some(next as u32), ..none })
        },
        BarEvent::ScrollDown => {
            let prev = if state.active_tab_idx > 1 { state.active_tab_idx - 1 } else { 1 };
            (state, Reaction { should_render: true, switch_to: Some(prev as u32), ..none })
        },
        BarEvent::Other => (state, none),
    }
}

impl BarState {
    /// The state before any event.
    pub fn new() -> (r: BarState)
        ensures
            r == (BarState { active_tab_idx: 0, tab_count: 0, mouse_click_pos: 0, should_change_tab: false }),
    {
        BarState { active_tab_idx: 0, tab_count: 0, mouse_click_pos: 0, should_change_tab: false }
    }

    /// Takes in `event`: updates the state and says what to do.
    pub fn update(&mut self, event: BarEvent) -> (r: Reaction)
        requires
            match event {
                BarEvent::TabUpdate { active_index: Some(i), .. } => i < usize::MAX,
                _ => true,
            },
        ensures
            (*final(self), r) == step(*old(self), event),
    {
        let none = Reaction { should_render: false, store_mode: false, store_tabs: false, switch_to: None };
        match event {
            BarEvent::ModeUpdate { differs } => Reaction { should_render: differs, store_mode: differs, ..none },
            BarEvent::TabUpdate { active_index, differs, tab_count } => match active_index {
                Some(i) => {
                    // the host counts tabs from 1
                    let idx = i + 1;
                    let should_render = self.active_tab_idx != idx || differs;
                    self.active_tab_idx = idx;
                    self.tab_count = tab_count;
                    Reaction { should_render, store_tabs: true, ..none }
                },
                None => none,
            },
            BarEvent::LeftClick(col) => {
                if self.mouse_click_pos != col {
                    self.should_change_tab = true;
                    self.mouse_click_pos = col;
                    Reaction { should_render: true, ..none }
                } else {
                    none
                }
            },
            BarEvent::ScrollUp => {
                let next = if self.active_tab_idx < self.tab_count && self.active_tab_idx + 1 < self.tab_count {
                    self.active_tab_idx + 1
                } else {
                    self.tab_count
                };
                Reaction { should_render: true, switch_to: Some(next as u32), ..none }
            },
            BarEvent::ScrollDown => {
                let prev = if self.active_tab_idx > 1 { self.active_tab_idx - 1 } else { 1 };
                Reaction { should_render: true, switch_to: Some(prev as u32), ..none }
            },
            BarEvent::Other => none,
        }
    }
}

} // verus!

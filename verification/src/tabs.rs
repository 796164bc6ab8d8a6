//! The tabs of the tokens that are watched, and which of them is selected.

use crate::finance::{Token, TokenView};
use vstd::prelude::*;

verus! {

/// What became of a key that a window was shown.
#[derive(Debug, PartialEq, Eq)]
pub enum InteractionEvent {
    /// The key meant nothing to the window.
    Ignored,
    Consumed,
    RunCommand(String),
    Escape,
    SymbolSelect(usize),
    WindowOpen(WindowType),
    UpdateStrategy,
}

impl InteractionEvent {
    /// `Consumed` where the key was consumed, `Ignored` where it was not.
    pub fn from_bool(consumed: bool) -> (r: Self)
        ensures
            consumed ==> r == InteractionEvent::Consumed,
            !consumed ==> r == InteractionEvent::Ignored,
    {
        if consumed {
            InteractionEvent::Consumed
        } else {
            InteractionEvent::Ignored
        }
    }
}

/// The kinds of windows.
#[derive(Debug, Clone, Copy, PartialEq, Eq, Structural)]
pub enum WindowType {
    LOG,
    STRATEGY,
    INPUT,
    WALLET,
    MARKET,
    ORACLE,
    ORDERBOOK,
    TABS,
    CHART,
}

/// What changed for the agents.
#[derive(Debug)]
pub enum MidasEvent {
    /// The order book of a token.
    BookUpdate(Token),
    /// The samples of the agent at an index.
    KLineUpdate(usize),
}

/// One tab: a token, the indices of its agents, and which of them is
/// selected.
#[derive(Debug)]
pub struct TabItem {
    pub token: Token,
    pub midas_indices: Vec<usize>,
    pub selected_index: usize,
}

/// The place after `selected` among `len` places, going round.
pub open spec fn place_after(selected: int, len: int) -> int {
    if len > 0 {
        (selected + 1) % len
    } else {
        selected
    }
}

/// The place before `selected` among `len` places, going round.
pub open spec fn place_before(selected: int, len: int) -> int {
    if len <= 0 {
        selected
    } else if selected == 0 {
        len - 1
    } else {
        selected - 1
    }
}

impl TabItem {
    /// The tab's invariant: the selection lies among the indices, or at
    /// zero where there is none.
    pub open spec fn wf(&self) -> bool {
        self.selected_index < self.midas_indices@.len() || self.selected_index == 0
    }

    /// The index that is selected, if there is one.
    pub fn current(&self) -> (r: Option<usize>)
        ensures
            r == if self.selected_index < self.midas_indices@.len() {
                Some(self.midas_indices@[self.selected_index as int])
            } else {
                None
            },
    {
        if self.midas_indices.len() > self.selected_index {
            Some(self.midas_indices[self.selected_index])
        } else {
            None
        }
    }

    /// Adds an index and selects it, unless the tab holds it already.
    pub fn add_index(&mut self, index: usize)
        ensures
            final(self).token == old(self).token,
            old(self).midas_indices@.contains(index) ==> *final(self) == *old(self),
            !old(self).midas_indices@.contains(index) ==> final(self).midas_indices@ == old(
                self,
            ).midas_indices@.push(index) && final(self).selected_index == old(
                self,
            ).midas_indices@.len(),
            old(self).wf() ==> final(self).wf(),
    {
        let mut i: usize = 0;
        while i < self.midas_indices.len()
            invariant
                i <= self.midas_indices@.len(),
                *self == *old(self),
                forall|j: int| 0 <= j < i ==> self.midas_indices@[j] != index,
            decreases self.midas_indices@.len() - i,
        {
            if self.midas_indices[i] == index {
                return ;
            }
            i += 1;
        }
        self.midas_indices.push(index);
        self.selected_index = self.midas_indices.len() - 1;
    }

    /// Selects the next index, going round.
    pub fn next(&mut self)
        requires
            old(self).wf(),
        ensures
            final(self).wf(),
            final(self).token == old(self).token,
            final(self).midas_indices == old(self).midas_indices,
            final(self).selected_index == place_after(
                old(self).selected_index as int,
                old(self).midas_indices@.len() as int,
            ),
    {
        if self.midas_indices.len() > 0 {
            self.selected_index = (self.selected_index + 1) % self.midas_indices.len();
        }
    }

    /// Selects the index before the selected one, going round.
    pub fn previous(&mut self)
        requires
            old(self).wf(),
        ensures
            final(self).wf(),
            final(self).token == old(self).token,
            final(self).midas_indices == old(self).midas_indices,
            final(self).selected_index == place_before(
                old(self).selected_index as int,
                old(self).midas_indices@.len() as int,
            ),
    {
        if self.midas_indices.len() > 0 {
            if self.selected_index == 0 {
                self.selected_index = self.midas_indices.len() - 1;
            } else {
                self.selected_index -= 1;
            }
        }
    }
}

/// A `TabItem` with its token as a `TokenView` and its indices as a
/// sequence.
pub ghost struct TabItemView {
    pub token: TokenView,
    pub midas_indices: Seq<usize>,
    pub selected_index: usize,
}

impl View for TabItem {
    type V = TabItemView;

    open spec fn view(&self) -> TabItemView {
        TabItemView {
            token: self.token@,
            midas_indices: self.midas_indices@,
            selected_index: self.selected_index,
        }
    }
}

impl TabItemView {
    /// The index that is selected, if there is one.
    pub open spec fn current(self) -> Option<usize> {
        if self.selected_index < self.midas_indices.len() {
            Some(self.midas_indices[self.selected_index as int])
        } else {
            None
        }
    }

    /// The tab with one more index, which is selected; or the tab as it
    /// is, where it holds the index already.
    pub open spec fn with_index(self, index: usize) -> TabItemView {
        if self.midas_indices.contains(index) {
            self
        } else {
            TabItemView {
                midas_indices: self.midas_indices.push(index),
                selected_index: self.midas_indices.len() as usize,
                ..self
            }
        }
    }

    /// The tab with the given selection.
    pub open spec fn selecting(self, selected: int) -> TabItemView {
        TabItemView { selected_index: selected as usize, ..self }
    }
}

/// The tabs of the tokens, and which of them is selected.
#[derive(Debug)]
pub struct SymbolTabs {
    pub selected_tab: usize,
    pub tabs: Vec<TabItem>,
}

/// The tabs as a sequence of views.
pub open spec fn tab_views(tabs: Seq<TabItem>) -> Seq<TabItemView> {
    Seq::new(tabs.len(), |i: int| tabs[i]@)
}

/// The place of the first tab at or after `start` whose token has the
/// key `key`, or the number of tabs where there is none.
pub open spec fn tab_place(tabs: Seq<TabItemView>, key: Seq<char>, start: int) -> int
    decreases tabs.len() - start,
{
    if start < 0 || start >= tabs.len() {
        tabs.len() as int
    } else if tabs[start].token.key() == key {
        start
    } else {
        tab_place(tabs, key, start + 1)
    }
}

/// The tabs with a tab for the token: as they are where one has the
/// token's key, else with a new, empty tab behind the others.
pub open spec fn with_tab(tabs: Seq<TabItemView>, token: TokenView) -> Seq<TabItemView> {
    if tab_place(tabs, token.key(), 0) < tabs.len() {
        tabs
    } else {
        tabs.push(TabItemView { token, midas_indices: Seq::empty(), selected_index: 0 })
    }
}

impl Default for SymbolTabs {
    fn default() -> (r: Self)
        ensures
            r.selected_tab == 0,
            r.tabs@.len() == 0,
            r.wf(),
    {
        SymbolTabs { selected_tab: 0, tabs: Vec::new() }
    }
}

impl SymbolTabs {
    /// The tabs as a sequence of views.
    pub open spec fn items(&self) -> Seq<TabItemView> {
        tab_views(self.tabs@)
    }

    /// The invariant: every tab's selection lies among its indices, and
    /// the selected tab among the tabs, or each at zero where there is
    /// nothing to select.
    pub open spec fn wf(&self) -> bool {
        &&& self.selected_tab < self.tabs@.len() || self.selected_tab == 0
        &&& forall|i: int| 0 <= i < self.tabs@.len() ==> (#[trigger] self.tabs@[i]).wf()
    }

    /// The index that is selected in the selected tab, if there is one.
    pub open spec fn selection(&self) -> Option<usize> {
        if self.selected_tab < self.tabs@.len() {
            self.items()[self.selected_tab as int].current()
        } else {
            None
        }
    }

    /// The selected index of the selected tab, with the tab's token.
    pub fn current(&self) -> (r: Option<(usize, Token)>)
        ensures
            match self.selection() {
                Some(index) => r.is_some() && r.unwrap().0 == index && r.unwrap().1@
                    == self.items()[self.selected_tab as int].token,
                None => r.is_none(),
            },
    {
        if self.selected_tab < self.tabs.len() {
            if let Some(index) = self.tabs[self.selected_tab].current() {
                return Some((index, self.tabs[self.selected_tab].token.clone()));
            }
        }
        None
    }

    /// The index that is selected in the selected tab, if there is one.
    pub fn current_midas_index(&self) -> (r: Option<usize>)
        ensures
            r == self.selection(),
    {
        if self.selected_tab < self.tabs.len() {
            if let Some(index) = self.tabs[self.selected_tab].current() {
                return Some(index);
            }
        }
        None
    }

    /// The place of the tab of a token; a new tab is opened behind the
    /// others where the token has none.
    pub fn open_tab(&mut self, token: &Token) -> (place: usize)
        ensures
            final(self).selected_tab == old(self).selected_tab,
            final(self).items() == with_tab(old(self).items(), token@),
            place == tab_place(old(self).items(), token@.key(), 0),
            place < final(self).tabs@.len(),
            old(self).wf() ==> final(self).wf(),
    {
        let mut i: usize = 0;
        while i < self.tabs.len()
            invariant
                i <= self.tabs@.len(),
                *self == *old(self),
                tab_place(self.items(), token@.key(), 0) == tab_place(
                    self.items(),
                    token@.key(),
                    i as int,
                ),
            decreases self.tabs@.len() - i,
        {
            if self.tabs[i].token == *token {
                return i;
            }
            i += 1;
        }
        let ghost before = self.items();
        self.tabs.push(
            TabItem { token: token.clone(), midas_indices: Vec::new(), selected_index: 0 },
        );
        assert(self.items() =~= before.push(
            TabItemView { token: token@, midas_indices: Seq::empty(), selected_index: 0 },
        ));
        self.tabs.len() - 1
    }

    /// Adds an agent's index to the tab of its token, and selects it
    /// there.
    pub fn add(&mut self, token: &Token, midas_index: usize)
        ensures
            final(self).selected_tab == old(self).selected_tab,
            final(self).items() == with_tab(old(self).items(), token@).update(
                tab_place(old(self).items(), token@.key(), 0),
                with_tab(old(self).items(), token@)[tab_place(
                    old(self).items(),
                    token@.key(),
                    0,
                )].with_index(midas_index),
            ),
            old(self).wf() ==> final(self).wf(),
    {
        let tab_index: usize = self.open_tab(token);
        let ghost opened = self.items();
        let ghost tabs = self.tabs@;
        self.tabs[tab_index].add_index(midas_index);
        proof {
            assert forall|i: int| 0 <= i < self.tabs@.len() && i != tab_index implies self.tabs@[i]
                == tabs[i] by {}
            assert(self.items() =~= opened.update(
                tab_index as int,
                opened[tab_index as int].with_index(midas_index),
            ));
        }
    }

    /// Selects the next tab, going round.
    pub fn next(&mut self)
        requires
            old(self).wf(),
        ensures
            final(self).wf(),
            final(self).tabs == old(self).tabs,
            final(self).selected_tab == place_after(
                old(self).selected_tab as int,
                old(self).tabs@.len() as int,
            ),
    {
        if self.tabs.len() > 0 {
            self.selected_tab = (self.selected_tab + 1) % self.tabs.len();
        }
    }

    /// Selects the tab before the selected one, going round.
    pub fn previous(&mut self)
        requires
            old(self).wf(),
        ensures
            final(self).wf(),
            final(self).tabs == old(self).tabs,
            final(self).selected_tab == place_before(
                old(self).selected_tab as int,
                old(self).tabs@.len() as int,
            ),
    {
        if self.tabs.len() > 0 {
            if self.selected_tab == 0 {
                self.selected_tab = self.tabs.len() - 1;
            } else {
                self.selected_tab -= 1;
            }
        }
    }

    /// Selects the next index of the selected tab.
    pub fn next_item(&mut self)
        requires
            old(self).wf(),
        ensures
            final(self).wf(),
            final(self).selected_tab == old(self).selected_tab,
            old(self).selected_tab >= old(self).tabs@.len() ==> final(self).items() == old(
                self,
            ).items(),
            old(self).selected_tab < old(self).tabs@.len() ==> final(self).items() == old(
                self,
            ).items().update(
                old(self).selected_tab as int,
                old(self).items()[old(self).selected_tab as int].selecting(
                    place_after(
                        old(self).items()[old(self).selected_tab as int].selected_index as int,
                        old(self).items()[old(self).selected_tab as int].midas_indices.len() as int,
                    ),
                ),
            ),
    {
        if self.selected_tab < self.tabs.len() {
            let ghost tabs = self.tabs@;
            self.tabs[self.selected_tab].next();
            proof {
                assert forall|i: int|
                    0 <= i < self.tabs@.len() && i != self.selected_tab implies self.tabs@[i]
                    == tabs[i] by {}
                assert(self.items() =~= tab_views(tabs).update(
                    self.selected_tab as int,
                    tabs[self.selected_tab as int]@.selecting(
                        place_after(
                            tabs[self.selected_tab as int].selected_index as int,
                            tabs[self.selected_tab as int].midas_indices@.len() as int,
                        ),
                    ),
                ));
            }
        }
    }

    /// Selects the index before the selected one in the selected tab.
    pub fn previous_item(&mut self)
        requires
            old(self).wf(),
        ensures
            final(self).wf(),
            final(self).selected_tab == old(self).selected_tab,
            old(self).selected_tab >= old(self).tabs@.len() ==> final(self).items() == old(
                self,
            ).items(),
            old(self).selected_tab < old(self).tabs@.len() ==> final(self).items() == old(
                self,
            ).items().update(
                old(self).selected_tab as int,
                old(self).items()[old(self).selected_tab as int].selecting(
                    place_before(
                        old(self).items()[old(self).selected_tab as int].selected_index as int,
                        old(self).items()[old(self).selected_tab as int].midas_indices.len() as int,
                    ),
                ),
            ),
    {
        if self.selected_tab < self.tabs.len() {
            let ghost tabs = self.tabs@;
            self.tabs[self.selected_tab].previous();
            proof {
                assert forall|i: int|
                    0 <= i < self.tabs@.len() && i != self.selected_tab implies self.tabs@[i]
                    == tabs[i] by {}
                assert(self.items() =~= tab_views(tabs).update(
                    self.selected_tab as int,
                    tabs[self.selected_tab as int]@.selecting(
                        place_before(
                            tabs[self.selected_tab as int].selected_index as int,
                            tabs[self.selected_tab as int].midas_indices@.len() as int,
                        ),
                    ),
                ));
            }
        }
    }

    /// The number of tabs.
    pub fn tab_count(&self) -> (r: usize)
        ensures
            r == self.tabs@.len(),
    {
        self.tabs.len()
    }

    /// The selected index of the tab at place `i`, with the tab's token.
    pub fn tab(&self, i: usize) -> (r: Option<(usize, Token)>)
        ensures
            i >= self.tabs@.len() ==> r.is_none(),
            i < self.tabs@.len() ==> match self.items()[i as int].current() {
                Some(index) => r.is_some() && r.unwrap().0 == index && r.unwrap().1@
                    == self.items()[i as int].token,
                None => r.is_none(),
            },
    {
        if i < self.tabs.len() {
            if self.tabs[i].midas_indices.len() > self.tabs[i].selected_index {
                return Some(
                    (
                        self.tabs[i].midas_indices[self.tabs[i].selected_index],
                        self.tabs[i].token.clone(),
                    ),
                );
            }
        }
        None
    }
}

} // verus!

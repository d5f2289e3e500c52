//! The panels of each chat: the terminal drawer, the right pane and the
//! surface tabs that it hosts.

use vstd::prelude::*;

use crate::rows::MessageStatus;
use crate::rows::SessionMessageEntry;
use crate::text::concat;
use crate::text::same;
use crate::text_map::TextMap;

verus! {

/// One surface of the right pane. `Picker` is the empty chooser; the others
/// carry the handle of what they show.
#[derive(Debug, Clone, Copy, PartialEq, Eq, Structural)]
pub enum RightSurface {
    Picker,
    Diff(u64),
    Terminal(u64),
    Subagent(u64),
}

impl Default for RightSurface {
    fn default() -> (surface: Self)
        ensures
            surface is Picker,
    {
        RightSurface::Picker
    }
}

/// What is open in one chat. Everything starts closed.
#[derive(Debug, Clone, Copy, PartialEq, Eq, Structural)]
pub struct ChatPanels {
    pub terminal_open: bool,
    pub changes_open: bool,
    pub right_active: RightSurface,
}

/// The panels of a chat that was never touched.
pub open spec fn closed_panels() -> ChatPanels {
    ChatPanels { terminal_open: false, changes_open: false, right_active: RightSurface::Picker }
}

impl Default for ChatPanels {
    fn default() -> (panels: Self)
        ensures
            panels == closed_panels(),
    {
        ChatPanels {
            terminal_open: false,
            changes_open: false,
            right_active: RightSurface::Picker,
        }
    }
}

/// The panels of every chat, by panel key.
#[derive(Debug)]
pub struct SessionPanels {
    map: TextMap<ChatPanels>,
}

impl View for SessionPanels {
    type V = spec_fn(Seq<char>) -> ChatPanels;

    closed spec fn view(&self) -> spec_fn(Seq<char>) -> ChatPanels {
        |key: Seq<char>|
            if self.map@.dom().contains(key) {
                self.map@[key]
            } else {
                closed_panels()
            }
    }
}

/// `panels` with those of `key` replaced.
pub open spec fn with_panels(
    panels: spec_fn(Seq<char>) -> ChatPanels,
    key: Seq<char>,
    value: ChatPanels,
) -> spec_fn(Seq<char>) -> ChatPanels {
    |other: Seq<char>|
        if other == key {
            value
        } else {
            panels(other)
        }
}

impl Default for SessionPanels {
    fn default() -> (panels: Self)
        ensures
            panels.wf(),
            forall|key: Seq<char>| #[trigger] (panels@)(key) == closed_panels(),
    {
        SessionPanels { map: TextMap::new() }
    }
}

impl SessionPanels {
    /// Whether every key is held once.
    pub closed spec fn wf(self) -> bool {
        self.map.wf()
    }

    /// The panels of `key`.
    pub fn get(&self, key: &str) -> (panels: ChatPanels)
        requires
            self.wf(),
        ensures
            panels == (self@)(key@),
    {
        match self.map.get(key) {
            Some(panels) => *panels,
            None => ChatPanels::default(),
        }
    }

    /// Gives `key` the panels `value` and leaves every other key alone.
    pub fn set(&mut self, key: &str, value: ChatPanels)
        requires
            old(self).wf(),
        ensures
            final(self).wf(),
            final(self)@ == with_panels(old(self)@, key@, value),
    {
        let ghost before = self@;
        self.map.insert(key, value);
        assert(self@ =~= with_panels(before, key@, value));
    }

    /// Flips the terminal flag of `key` and returns its new value.
    pub fn toggle_terminal(&mut self, key: &str) -> (open: bool)
        requires
            old(self).wf(),
        ensures
            final(self).wf(),
            open == !(old(self)@)(key@).terminal_open,
            final(self)@ == with_panels(
                old(self)@,
                key@,
                ChatPanels { terminal_open: open, ..(old(self)@)(key@) },
            ),
    {
        let mut panels = self.get(key);
        panels.terminal_open = !panels.terminal_open;
        self.set(key, panels);
        panels.terminal_open
    }

    /// Flips the right-pane flag of `key` and returns its new value.
    pub fn toggle_changes(&mut self, key: &str) -> (open: bool)
        requires
            old(self).wf(),
        ensures
            final(self).wf(),
            open == !(old(self)@)(key@).changes_open,
            final(self)@ == with_panels(
                old(self)@,
                key@,
                ChatPanels { changes_open: open, ..(old(self)@)(key@) },
            ),
    {
        let mut panels = self.get(key);
        panels.changes_open = !panels.changes_open;
        self.set(key, panels);
        panels.changes_open
    }

    /// Replaces the panels of `key` by what `change` makes of them.
    pub fn update<F: FnOnce(ChatPanels) -> ChatPanels>(&mut self, key: &str, change: F)
        requires
            old(self).wf(),
            call_requires(change, ((old(self)@)(key@),)),
        ensures
            final(self).wf(),
            call_ensures(change, ((old(self)@)(key@),), (final(self)@)(key@)),
            final(self)@ == with_panels(old(self)@, key@, (final(self)@)(key@)),
    {
        let panels = self.get(key);
        let changed = change(panels);
        self.set(key, changed);
    }
}

/// Flipping a flag twice gives the panels back, and no flip of one chat shows
/// in another.
pub proof fn law_flips_are_undone_and_stay_in_their_chat(
    panels: spec_fn(Seq<char>) -> ChatPanels,
    key: Seq<char>,
    other: Seq<char>,
)
    requires
        other != key,
    ensures
        ({
            let once = with_panels(
                panels,
                key,
                ChatPanels { terminal_open: !panels(key).terminal_open, ..panels(key) },
            );
            let twice = with_panels(
                once,
                key,
                ChatPanels { terminal_open: !once(key).terminal_open, ..once(key) },
            );
            &&& once(other) == panels(other)
            &&& twice(key) == panels(key)
            &&& twice(other) == panels(other)
        }),
        ({
            let once = with_panels(
                panels,
                key,
                ChatPanels { changes_open: !panels(key).changes_open, ..panels(key) },
            );
            let twice = with_panels(
                once,
                key,
                ChatPanels { changes_open: !once(key).changes_open, ..once(key) },
            );
            &&& once(other) == panels(other)
            &&& once(key).terminal_open == panels(key).terminal_open
            &&& twice(key) == panels(key)
            &&& twice(other) == panels(other)
        }),
{
}

/// The key under which the panels on screen are kept: the chat, or the space
/// while no chat is selected.
pub open spec fn panel_key_of(active_chat: Seq<char>, space: Option<Seq<char>>) -> Seq<char> {
    if active_chat.len() == 0 {
        "space-canvas:"@ + match space {
            Some(id) => id,
            None => Seq::<char>::empty(),
        }
    } else {
        active_chat
    }
}

/// The key under which the panels on screen are kept.
pub fn panel_key(active_chat: &str, selected_space: &Option<String>) -> (key: String)
    ensures
        key@ == panel_key_of(active_chat@, crate::text::optional(*selected_space)),
{
    if active_chat.is_empty() {
        match selected_space {
            Some(id) => concat("space-canvas:", id.as_str()),
            None => {
                let key = "space-canvas:".to_owned();
                assert(key@ =~= "space-canvas:"@ + Seq::<char>::empty());
                key
            },
        }
    } else {
        active_chat.to_owned()
    }
}

/// A tab of the right pane that shows a subagent's transcript.
#[derive(Debug)]
pub struct SubagentTab {
    pub id: u64,
    pub doc_id: String,
    pub title: String,
}

/// A surface and what its tab is called.
#[derive(Debug)]
pub struct SurfaceRow {
    pub surface: RightSurface,
    pub title: String,
}

/// A surface tab that is being dragged: where it came from, the slot under the
/// pointer, the slot before that, and a count of slot changes.
#[derive(Debug, Clone, Copy, PartialEq, Eq, Structural)]
pub struct RightTabDragState {
    pub from: usize,
    pub over: usize,
    pub epoch: usize,
    pub prev_over: usize,
}

/// What a change of the right pane asks of the surfaces.
#[derive(Debug)]
pub enum SurfaceEffect {
    /// Nothing.
    Nothing,
    /// Bring this terminal tab to the front.
    SelectTerminal(u64),
    /// Make sure that this diff is up to date.
    RefreshDiff(u64),
    /// Close this terminal tab.
    CloseTerminal(u64),
    /// Drop this diff.
    DropDiff(u64),
    /// Stop watching this document.
    Unwatch(String),
}

/// The first title in `titles` under `id`.
pub open spec fn title_of(titles: Seq<(u64, String)>, id: u64) -> Option<Seq<char>>
    decreases titles.len(),
{
    if titles.len() == 0 {
        None
    } else if titles[0].0 == id {
        Some(titles[0].1@)
    } else {
        title_of(titles.skip(1), id)
    }
}

/// The diff to bring up to date when a pane comes on screen: the one that shows,
/// while the pane is open and the diff exists.
pub open spec fn refreshed(
    open: bool,
    surface: RightSurface,
    diffs: Seq<(u64, String)>,
) -> SurfaceEffect {
    match surface {
        RightSurface::Diff(id) => if open && title_of(diffs, id) is Some {
            SurfaceEffect::RefreshDiff(id)
        } else {
            SurfaceEffect::Nothing
        },
        _ => SurfaceEffect::Nothing,
    }
}

/// The title of the subagent tab `id`.
pub open spec fn subagent_title(tabs: Seq<SubagentTab>, id: u64) -> Option<Seq<char>>
    decreases tabs.len(),
{
    if tabs.len() == 0 {
        None
    } else if tabs[0].id == id {
        Some(tabs[0].title@)
    } else {
        subagent_title(tabs.skip(1), id)
    }
}

/// What the tab of a surface is called, while what it shows still exists.
pub open spec fn surface_title(
    surface: RightSurface,
    diffs: Seq<(u64, String)>,
    terminals: Seq<(u64, String)>,
    subagents: Seq<SubagentTab>,
) -> Option<Seq<char>> {
    match surface {
        RightSurface::Diff(id) => title_of(diffs, id),
        RightSurface::Terminal(tab) => title_of(terminals, tab),
        RightSurface::Subagent(id) => subagent_title(subagents, id),
        RightSurface::Picker => None,
    }
}

/// The stored surfaces whose tab still has a title, in their order.
pub open spec fn live_rows(
    stored: Seq<RightSurface>,
    diffs: Seq<(u64, String)>,
    terminals: Seq<(u64, String)>,
    subagents: Seq<SubagentTab>,
) -> Seq<(RightSurface, Seq<char>)>
    decreases stored.len(),
{
    if stored.len() == 0 {
        Seq::empty()
    } else {
        let front = live_rows(stored.drop_last(), diffs, terminals, subagents);
        match surface_title(stored.last(), diffs, terminals, subagents) {
            Some(title) => front.push((stored.last(), title)),
            None => front,
        }
    }
}

/// Rows in contracts.
pub open spec fn row_views(rows: Seq<SurfaceRow>) -> Seq<(RightSurface, Seq<char>)> {
    rows.map_values(|row: SurfaceRow| (row.surface, row.title@))
}

/// The first title in `titles` under `id`.
fn find_title(titles: &Vec<(u64, String)>, id: u64) -> (title: Option<String>)
    ensures
        crate::text::optional(title) == title_of(titles@, id),
{
    let mut i: usize = 0;
    assert(titles@.skip(0) == titles@);
    while i < titles.len()
        invariant
            i <= titles.len(),
            title_of(titles@, id) == title_of(titles@.skip(i as int), id),
        decreases titles.len() - i,
    {
        assert(titles@.skip(i as int).skip(1) == titles@.skip(i + 1));
        if titles[i].0 == id {
            return Some(titles[i].1.clone());
        }
        i += 1;
    }
    None
}

/// The title of the subagent tab `id`.
fn find_subagent_title(tabs: &Vec<SubagentTab>, id: u64) -> (title: Option<String>)
    ensures
        crate::text::optional(title) == subagent_title(tabs@, id),
{
    let mut i: usize = 0;
    assert(tabs@.skip(0) == tabs@);
    while i < tabs.len()
        invariant
            i <= tabs.len(),
            subagent_title(tabs@, id) == subagent_title(tabs@.skip(i as int), id),
        decreases tabs.len() - i,
    {
        assert(tabs@.skip(i as int).skip(1) == tabs@.skip(i + 1));
        if tabs[i].id == id {
            return Some(tabs[i].title.clone());
        }
        i += 1;
    }
    None
}

/// The surface that shows: the one that was picked while its tab lives, else
/// the first tab, else the picker.
pub open spec fn active_surface(
    picked: RightSurface,
    rows: Seq<(RightSurface, Seq<char>)>,
) -> RightSurface {
    if picked !is Picker && exists|i: int| 0 <= i < rows.len() && (#[trigger] rows[i]).0 == picked {
        picked
    } else if rows.len() > 0 {
        rows[0].0
    } else {
        RightSurface::Picker
    }
}

/// The surface that shows: the one that was picked while its tab lives, else
/// the first tab, else the picker.
pub fn resolve_active(picked: RightSurface, rows: &Vec<SurfaceRow>) -> (surface: RightSurface)
    ensures
        surface == active_surface(picked, row_views(rows@)),
{
    let ghost views = row_views(rows@);
    if picked != RightSurface::Picker {
        let mut i: usize = 0;
        while i < rows.len()
            invariant
                i <= rows.len(),
                views == row_views(rows@),
                picked !is Picker,
                forall|j: int| 0 <= j < i ==> (#[trigger] views[j]).0 != picked,
            decreases rows.len() - i,
        {
            assert(views[i as int].0 == rows@[i as int].surface);
            if rows[i].surface == picked {
                return picked;
            }
            i += 1;
        }
    }
    if rows.len() > 0 {
        assert(views[0].0 == rows@[0].surface);
        rows[0].surface
    } else {
        RightSurface::Picker
    }
}

/// The surface that shows is the picker or the surface of a live tab: a closed
/// tab never shows.
pub proof fn law_no_dead_surface_shows(picked: RightSurface, rows: Seq<(RightSurface, Seq<char>)>)
    ensures
        ({
            let shown = active_surface(picked, rows);
            ||| shown is Picker && rows.len() == 0
            ||| exists|i: int| 0 <= i < rows.len() && (#[trigger] rows[i]).0 == shown
        }),
{
    if !(exists|i: int| 0 <= i < rows.len() && (#[trigger] rows[i]).0 == picked) || picked is Picker {
        if rows.len() > 0 {
            assert(rows[0].0 == active_surface(picked, rows));
        }
    }
}

/// The tabs after the one at `from` was dropped on slot `to`.
pub open spec fn reordered(tabs: Seq<RightSurface>, from: int, to: int) -> Seq<RightSurface> {
    if from < tabs.len() && to < tabs.len() && from != to {
        tabs.remove(from).insert(to, tabs[from])
    } else {
        tabs
    }
}

/// Reordering loses no tab and adds none.
pub proof fn law_reordering_keeps_the_tabs(tabs: Seq<RightSurface>, from: int, to: int)
    requires
        0 <= from,
        0 <= to,
    ensures
        reordered(tabs, from, to).to_multiset() == tabs.to_multiset(),
        from < tabs.len() && to < tabs.len() ==> reordered(tabs, from, to)[to] == tabs[from],
{
    if from < tabs.len() && to < tabs.len() && from != to {
        vstd::seq_lib::to_multiset_remove(tabs, from);
        vstd::seq_lib::to_multiset_insert(tabs.remove(from), to, tabs[from]);
        vstd::seq_lib::to_multiset_contains(tabs, tabs[from]);
        assert(tabs.contains(tabs[from]));
        assert(tabs.to_multiset().remove(tabs[from]).insert(tabs[from]) =~= tabs.to_multiset());
    }
}

/// `tabs` without `surface`.
pub open spec fn without(tabs: Seq<RightSurface>, surface: RightSurface) -> Seq<RightSurface> {
    tabs.filter(|tab: RightSurface| tab != surface)
}

/// The tabs stored under `key`.
pub open spec fn stored_tabs(tabs: Map<Seq<char>, Vec<RightSurface>>, key: Seq<char>) -> Seq<
    RightSurface,
> {
    if tabs.dom().contains(key) {
        tabs[key]@
    } else {
        Seq::empty()
    }
}

/// Whether a tab may carry `surface`: its handle is one of those that were
/// given out. Handles of terminals are given out elsewhere.
pub open spec fn issued(surface: RightSurface, diff_seq: u64, subagent_seq: u64) -> bool {
    match surface {
        RightSurface::Diff(id) => id <= diff_seq,
        RightSurface::Subagent(id) => id <= subagent_seq,
        RightSurface::Terminal(_) => true,
        RightSurface::Picker => false,
    }
}

/// Whether every tab carries a handle that was given out.
pub open spec fn tabs_issued(
    tabs: Map<Seq<char>, Vec<RightSurface>>,
    diff_seq: u64,
    subagent_seq: u64,
) -> bool {
    forall|key: Seq<char>, i: int|
        0 <= i < stored_tabs(tabs, key).len() ==> issued(
            #[trigger] stored_tabs(tabs, key)[i],
            diff_seq,
            subagent_seq,
        )
}

/// Whether the handles were given out and no two tabs share a handle or a
/// document.
pub open spec fn subagents_distinct(tabs: Seq<SubagentTab>, subagent_seq: u64) -> bool {
    &&& forall|i: int| 0 <= i < tabs.len() ==> (#[trigger] tabs[i]).id <= subagent_seq
    &&& forall|i: int, j: int|
        0 <= i < j < tabs.len() ==> {
            &&& (#[trigger] tabs[i]).id != (#[trigger] tabs[j]).id
            &&& tabs[i].doc_id@ != tabs[j].doc_id@
        }
}

/// Storing tabs with issued handles keeps all handles issued.
proof fn lemma_tabs_stay_issued(
    tabs: Map<Seq<char>, Vec<RightSurface>>,
    key: Seq<char>,
    list: Vec<RightSurface>,
    diff_seq: u64,
    subagent_seq: u64,
)
    requires
        tabs_issued(tabs, diff_seq, subagent_seq),
        forall|i: int|
            0 <= i < list@.len() ==> issued(#[trigger] list@[i], diff_seq, subagent_seq),
    ensures
        tabs_issued(tabs.insert(key, list), diff_seq, subagent_seq),
{
    let after = tabs.insert(key, list);
    assert forall|other: Seq<char>, i: int| 0 <= i < stored_tabs(after, other).len() implies issued(
        #[trigger] stored_tabs(after, other)[i],
        diff_seq,
        subagent_seq,
    ) by {
        if other != key {
            assert(stored_tabs(after, other) == stored_tabs(tabs, other));
            assert(issued(stored_tabs(tabs, other)[i], diff_seq, subagent_seq));
        } else {
            assert(list@[i] == stored_tabs(after, other)[i]);
        }
    }
}

/// Giving out more handles keeps all handles issued.
proof fn lemma_more_handles(
    tabs: Map<Seq<char>, Vec<RightSurface>>,
    diff_seq: u64,
    subagent_seq: u64,
    more_diffs: u64,
    more_subagents: u64,
)
    requires
        tabs_issued(tabs, diff_seq, subagent_seq),
        diff_seq <= more_diffs,
        subagent_seq <= more_subagents,
    ensures
        tabs_issued(tabs, more_diffs, more_subagents),
{
    assert forall|key: Seq<char>, i: int| 0 <= i < stored_tabs(tabs, key).len() implies issued(
        #[trigger] stored_tabs(tabs, key)[i],
        more_diffs,
        more_subagents,
    ) by {
        assert(issued(stored_tabs(tabs, key)[i], diff_seq, subagent_seq));
    }
}

/// A document that no tab shows is none of the tabs' documents.
proof fn lemma_no_tab_for(tabs: Seq<SubagentTab>, doc_id: Seq<char>)
    requires
        first_tab_for(tabs, doc_id) is None,
    ensures
        forall|i: int| 0 <= i < tabs.len() ==> (#[trigger] tabs[i]).doc_id@ != doc_id,
    decreases tabs.len(),
{
    if tabs.len() > 0 {
        let rest = tabs.skip(1);
        lemma_no_tab_for(rest, doc_id);
        assert forall|i: int| 0 <= i < tabs.len() implies (#[trigger] tabs[i]).doc_id@ != doc_id by {
            if i > 0 {
                assert(rest[i - 1] == tabs[i]);
            }
        }
    }
}

/// Where the first tab with a handle stands is one of the tabs.
proof fn lemma_first_place(tabs: Seq<SubagentTab>, id: u64)
    ensures
        first_place(tabs, id) is Some ==> {
            &&& 0 <= first_place(tabs, id)->0 < tabs.len()
            &&& tabs[first_place(tabs, id)->0].id == id
        },
    decreases tabs.len(),
{
    if tabs.len() > 0 && tabs[0].id != id {
        lemma_first_place(tabs.skip(1), id);
    }
}

/// The right pane of every chat.
#[derive(Debug)]
pub struct RightPane {
    pub panels: SessionPanels,
    pub tabs: TextMap<Vec<RightSurface>>,
    pub subagents: Vec<SubagentTab>,
    pub diff_seq: u64,
    pub subagent_seq: u64,
    pub drag: Option<RightTabDragState>,
    pub expanded: bool,
}

impl RightPane {
    /// Whether the keys of the maps are held once, every tab carries a handle
    /// that was issued, and no two subagent tabs share a handle or a document.
    pub open spec fn wf(self) -> bool {
        &&& self.panels.wf()
        &&& self.tabs.wf()
        &&& tabs_issued(self.tabs@, self.diff_seq, self.subagent_seq)
        &&& subagents_distinct(self.subagents@, self.subagent_seq)
    }

    /// The tabs stored under `key`.
    pub open spec fn stored(self, key: Seq<char>) -> Seq<RightSurface> {
        stored_tabs(self.tabs@, key)
    }

    /// Whether this pane is `before` but for what the tabs of `key` are and
    /// for the panels of `key`.
    pub open spec fn touches_only(self, before: RightPane, key: Seq<char>) -> bool {
        &&& forall|other: Seq<char>|
            other != key ==> (#[trigger] self.stored(other)) == before.stored(other)
        &&& forall|other: Seq<char>|
            other != key ==> (#[trigger] (self.panels@)(other)) == (before.panels@)(other)
    }

    /// A right pane that nothing was opened in.
    pub fn new() -> (pane: Self)
        ensures
            pane.wf(),
            forall|key: Seq<char>| (#[trigger] pane.stored(key)).len() == 0,
            forall|key: Seq<char>| #[trigger] (pane.panels@)(key) == closed_panels(),
            pane.subagents@.len() == 0,
            pane.diff_seq == 0,
            pane.subagent_seq == 0,
            pane.drag is None,
            !pane.expanded,
    {
        RightPane {
            panels: SessionPanels::default(),
            tabs: TextMap::new(),
            subagents: Vec::new(),
            diff_seq: 0,
            subagent_seq: 0,
            drag: None,
            expanded: false,
        }
    }

    /// The tabs stored under `key`.
    fn tab_list(&self, key: &str) -> (tabs: Vec<RightSurface>)
        requires
            self.wf(),
        ensures
            tabs@ == self.stored(key@),
    {
        let mut tabs: Vec<RightSurface> = Vec::new();
        if let Some(found) = self.tabs.get(key) {
            let mut i: usize = 0;
            while i < found.len()
                invariant
                    i <= found.len(),
                    tabs@ == found@.take(i as int),
                decreases found.len() - i,
            {
                tabs.push(found[i]);
                i += 1;
                assert(tabs@ =~= found@.take(i as int));
            }
            assert(found@.take(i as int) =~= found@);
        }
        tabs
    }

    /// Whether the pane shows: a chat is selected and its flag is set.
    pub fn is_open(&self, active_chat: &str, key: &str) -> (open: bool)
        requires
            self.wf(),
        ensures
            open == (active_chat@.len() > 0 && (self.panels@)(key@).changes_open),
    {
        !active_chat.is_empty() && self.panels.get(key).changes_open
    }

    /// The tabs of `key` whose surface still exists, with their titles, in
    /// the stored order.
    pub fn rows(&self, key: &str, diffs: &Vec<(u64, String)>, terminals: &Vec<(u64, String)>) -> (rows:
        Vec<SurfaceRow>)
        requires
            self.wf(),
        ensures
            row_views(rows@) == live_rows(
                self.stored(key@),
                diffs@,
                terminals@,
                self.subagents@,
            ),
    {
        let stored = self.tab_list(key);
        let mut rows: Vec<SurfaceRow> = Vec::new();
        let mut i: usize = 0;
        assert(stored@.take(0) =~= Seq::<RightSurface>::empty());
        assert(row_views(rows@) =~= live_rows(
            stored@.take(0),
            diffs@,
            terminals@,
            self.subagents@,
        ));
        while i < stored.len()
            invariant
                i <= stored.len(),
                row_views(rows@) == live_rows(
                    stored@.take(i as int),
                    diffs@,
                    terminals@,
                    self.subagents@,
                ),
            decreases stored.len() - i,
        {
            let surface = stored[i];
            let title = match surface {
                RightSurface::Diff(id) => find_title(diffs, id),
                RightSurface::Terminal(tab) => find_title(terminals, tab),
                RightSurface::Subagent(id) => find_subagent_title(&self.subagents, id),
                RightSurface::Picker => None,
            };
            assert(stored@.take(i + 1).drop_last() =~= stored@.take(i as int));
            assert(stored@.take(i + 1).last() == surface);
            let ghost before = row_views(rows@);
            if let Some(text) = title {
                rows.push(SurfaceRow { surface, title: text });
                assert(row_views(rows@) =~= before.push((surface, text@)));
            }
            i += 1;
        }
        assert(stored@.take(i as int) =~= stored@);
        rows
    }

    /// The surface that shows under `key`.
    pub open spec fn active(
        self,
        key: Seq<char>,
        diffs: Seq<(u64, String)>,
        terminals: Seq<(u64, String)>,
    ) -> RightSurface {
        active_surface(
            (self.panels@)(key).right_active,
            live_rows(self.stored(key), diffs, terminals, self.subagents@),
        )
    }

    /// The surface that shows under `key`.
    pub fn resolved_active(
        &self,
        key: &str,
        diffs: &Vec<(u64, String)>,
        terminals: &Vec<(u64, String)>,
    ) -> (surface: RightSurface)
        requires
            self.wf(),
        ensures
            surface == self.active(key@, diffs@, terminals@),
    {
        let rows = self.rows(key, diffs, terminals);
        resolve_active(self.panels.get(key).right_active, &rows)
    }

    /// What shows when the chat of `key` comes on screen: whether its terminal
    /// drawer is open, and the diff that its right pane looks at anew.
    pub fn shown(
        &self,
        key: &str,
        diffs: &Vec<(u64, String)>,
        terminals: &Vec<(u64, String)>,
    ) -> (shown: (bool, SurfaceEffect))
        requires
            self.wf(),
        ensures
            shown.0 == (self.panels@)(key@).terminal_open,
            shown.1 == refreshed(
                (self.panels@)(key@).changes_open,
                self.active(key@, diffs@, terminals@),
                diffs@,
            ),
    {
        let panels = self.panels.get(key);
        let mut effect = SurfaceEffect::Nothing;
        if panels.changes_open {
            if let RightSurface::Diff(id) = self.resolved_active(key, diffs, terminals) {
                if find_title(diffs, id).is_some() {
                    effect = SurfaceEffect::RefreshDiff(id);
                }
            }
        }
        (panels.terminal_open, effect)
    }

    /// What the pane holds under `key`: nothing while it does not show, and the
    /// picker where no tab is left.
    pub fn content(
        &self,
        active_chat: &str,
        key: &str,
        diffs: &Vec<(u64, String)>,
        terminals: &Vec<(u64, String)>,
    ) -> (content: Option<RightSurface>)
        requires
            self.wf(),
        ensures
            content == if active_chat@.len() > 0 && (self.panels@)(key@).changes_open {
                Some(self.active(key@, diffs@, terminals@))
            } else {
                None
            },
    {
        if self.is_open(active_chat, key) {
            Some(self.resolved_active(key, diffs, terminals))
        } else {
            None
        }
    }

    /// Moves the tab at `from` to slot `to`. Says whether anything moved.
    pub fn reorder(&mut self, key: &str, from: usize, to: usize) -> (moved: bool)
        requires
            old(self).wf(),
        ensures
            final(self).wf(),
            moved == (from < old(self).stored(key@).len() && to < old(self).stored(key@).len()
                && from != to),
            final(self).stored(key@) == reordered(old(self).stored(key@), from as int, to as int),
            final(self).touches_only(*old(self), key@),
            *final(self) == (RightPane { tabs: final(self).tabs, ..*old(self) }),
    {
        let mut tabs = self.tab_list(key);
        if from < tabs.len() && to < tabs.len() && from != to {
            let ghost before = *self;
            let surface = tabs.remove(from);
            tabs.insert(to, surface);
            proof {
                let list = before.stored(key@);
                assert forall|i: int| 0 <= i < tabs@.len() implies issued(
                    #[trigger] tabs@[i],
                    before.diff_seq,
                    before.subagent_seq,
                ) by {
                    let rest = list.remove(from as int);
                    let j = if i < to {
                        i
                    } else {
                        i - 1
                    };
                    if i == to {
                        assert(tabs@[i] == list[from as int]);
                    } else {
                        assert(tabs@[i] == rest[j]);
                        assert(rest[j] == list[if j < from {
                            j
                        } else {
                            j + 1
                        }]);
                    }
                }
                lemma_tabs_stay_issued(
                    before.tabs@,
                    key@,
                    tabs,
                    before.diff_seq,
                    before.subagent_seq,
                );
            }
            self.tabs.insert(key, tabs);
            assert(self.stored(key@) =~= reordered(before.stored(key@), from as int, to as int));
            true
        } else {
            false
        }
    }

    /// Notes the slot under the pointer while the tab at slot `from` of the strip
    /// of `origin` is dragged over the strip of `key`. A tab of another strip is
    /// passed over. Says whether anything changed.
    pub fn drag_over(&mut self, key: &str, origin: &str, from: usize, over: usize) -> (changed:
        bool)
        requires
            old(self).drag is Some ==> old(self).drag->0.epoch < usize::MAX,
        ensures
            changed == (origin@ == key@ && (old(self).drag is None || old(self).drag->0.over
                != over)),
            *final(self) == (RightPane { drag: final(self).drag, ..*old(self) }),
            origin@ != key@ ==> final(self).drag == old(self).drag,
            origin@ == key@ ==> final(self).drag == match old(self).drag {
                Some(drag) => if drag.over == over {
                    Some(drag)
                } else {
                    Some(
                        RightTabDragState {
                            from: drag.from,
                            over,
                            epoch: (drag.epoch + 1) as usize,
                            prev_over: drag.over,
                        },
                    )
                },
                None => Some(RightTabDragState { from, over, epoch: 0, prev_over: from }),
            },
    {
        if !same(origin, key) {
            return false;
        }
        match self.drag {
            Some(drag) => {
                if drag.over == over {
                    false
                } else {
                    self.drag = Some(
                        RightTabDragState {
                            from: drag.from,
                            over,
                            epoch: drag.epoch + 1,
                            prev_over: drag.over,
                        },
                    );
                    true
                }
            },
            None => {
                self.drag = Some(RightTabDragState { from, over, epoch: 0, prev_over: from });
                true
            },
        }
    }

    /// Ends the drag and hands back the slot to drop on: the one under the
    /// pointer, or where the tab came from.
    pub fn drop_slot(&mut self, from: usize) -> (to: usize)
        ensures
            to == match old(self).drag {
                Some(drag) => drag.over,
                None => from,
            },
            *final(self) == (RightPane { drag: None, ..*old(self) }),
    {
        let to: usize = match self.drag {
            Some(drag) => drag.over,
            None => from,
        };
        self.drag = None;
        to
    }

    /// Forgets a drag whose pointer was let go elsewhere.
    pub fn heal_drag(&mut self, pointer_drags: bool)
        ensures
            *final(self) == (RightPane {
                drag: if pointer_drags {
                    old(self).drag
                } else {
                    None
                },
                ..*old(self)
            }),
    {
        if !pointer_drags {
            self.drag = None;
        }
    }

    /// Drops the tab that came from slot `from` of the strip of `origin` onto
    /// the strip of `key`: within one strip it moves to the slot under the
    /// pointer, onto another strip nothing moves. Either way the drag is over.
    pub fn drop_tab(&mut self, key: &str, origin: &str, from: usize) -> (moved: bool)
        requires
            old(self).wf(),
        ensures
            final(self).wf(),
            final(self).drag is None,
            ({
                let to = match old(self).drag {
                    Some(drag) => drag.over as int,
                    None => from as int,
                };
                let tabs = old(self).stored(key@);
                &&& moved == (origin@ == key@ && from < tabs.len() && to < tabs.len() && from != to)
                &&& final(self).stored(key@) == if origin@ == key@ {
                    reordered(tabs, from as int, to)
                } else {
                    tabs
                }
            }),
            final(self).touches_only(*old(self), key@),
            *final(self) == (RightPane {
                tabs: final(self).tabs,
                drag: final(self).drag,
                ..*old(self)
            }),
    {
        let to = self.drop_slot(from);
        if same(origin, key) {
            self.reorder(key, from, to)
        } else {
            false
        }
    }

    /// Makes `surface` the one that was picked under `key`. `diff_exists`
    /// says that the diff of a diff surface still exists.
    pub fn set_active(&mut self, key: &str, surface: RightSurface, diff_exists: bool) -> (effect:
        SurfaceEffect)
        requires
            old(self).wf(),
        ensures
            final(self).wf(),
            final(self).panels@ == with_panels(
                old(self).panels@,
                key@,
                ChatPanels { right_active: surface, ..(old(self).panels@)(key@) },
            ),
            final(self).touches_only(*old(self), key@),
            *final(self) == (RightPane { panels: final(self).panels, ..*old(self) }),
            effect == match surface {
                RightSurface::Terminal(tab) => SurfaceEffect::SelectTerminal(tab),
                RightSurface::Diff(id) => if diff_exists {
                    SurfaceEffect::RefreshDiff(id)
                } else {
                    SurfaceEffect::Nothing
                },
                _ => SurfaceEffect::Nothing,
            },
    {
        let mut panels = self.panels.get(key);
        panels.right_active = surface;
        self.panels.set(key, panels);
        match surface {
            RightSurface::Terminal(tab) => SurfaceEffect::SelectTerminal(tab),
            RightSurface::Diff(id) => {
                if diff_exists {
                    SurfaceEffect::RefreshDiff(id)
                } else {
                    SurfaceEffect::Nothing
                }
            },
            _ => SurfaceEffect::Nothing,
        }
    }

    /// Appends a tab under `key` and picks it.
    fn append(&mut self, key: &str, surface: RightSurface) -> (effect: SurfaceEffect)
        requires
            old(self).wf(),
            issued(surface, old(self).diff_seq, old(self).subagent_seq),
        ensures
            final(self).wf(),
            final(self).stored(key@) == old(self).stored(key@).push(surface),
            (final(self).panels@)(key@) == (ChatPanels {
                right_active: surface,
                ..(old(self).panels@)(key@)
            }),
            final(self).touches_only(*old(self), key@),
            *final(self) == (RightPane {
                panels: final(self).panels,
                tabs: final(self).tabs,
                ..*old(self)
            }),
            effect == match surface {
                RightSurface::Terminal(tab) => SurfaceEffect::SelectTerminal(tab),
                RightSurface::Diff(id) => SurfaceEffect::RefreshDiff(id),
                _ => SurfaceEffect::Nothing,
            },
    {
        let mut tabs = self.tab_list(key);
        tabs.push(surface);
        proof {
            let list = self.stored(key@);
            assert forall|i: int| 0 <= i < tabs@.len() implies issued(
                #[trigger] tabs@[i],
                self.diff_seq,
                self.subagent_seq,
            ) by {
                if i < list.len() {
                    assert(tabs@[i] == list[i]);
                }
            }
            lemma_tabs_stay_issued(self.tabs@, key@, tabs, self.diff_seq, self.subagent_seq);
        }
        self.tabs.insert(key, tabs);
        self.set_active(key, surface, true)
    }

    /// Opens a fresh diff tab under `key`; no tab carries its handle yet.
    pub fn open_diff(&mut self, key: &str) -> (id: u64)
        requires
            old(self).wf(),
            old(self).diff_seq < u64::MAX,
        ensures
            final(self).wf(),
            id == old(self).diff_seq + 1,
            forall|other: Seq<char>, i: int|
                0 <= i < old(self).stored(other).len() ==> #[trigger] old(self).stored(other)[i]
                    != RightSurface::Diff(id),
            final(self).stored(key@) == old(self).stored(key@).push(RightSurface::Diff(id)),
            (final(self).panels@)(key@) == (ChatPanels {
                right_active: RightSurface::Diff(id),
                ..(old(self).panels@)(key@)
            }),
            final(self).touches_only(*old(self), key@),
            *final(self) == (RightPane {
                panels: final(self).panels,
                tabs: final(self).tabs,
                diff_seq: id,
                ..*old(self)
            }),
    {
        proof {
            lemma_more_handles(
                self.tabs@,
                self.diff_seq,
                self.subagent_seq,
                (self.diff_seq + 1) as u64,
                self.subagent_seq,
            );
        }
        self.diff_seq += 1;
        let id: u64 = self.diff_seq;
        self.append(key, RightSurface::Diff(id));
        id
    }

    /// Opens a tab under `key` for the terminal that was just started.
    pub fn open_terminal(&mut self, key: &str, tab: u64) -> (effect: SurfaceEffect)
        requires
            old(self).wf(),
        ensures
            final(self).wf(),
            final(self).stored(key@) == old(self).stored(key@).push(RightSurface::Terminal(tab)),
            (final(self).panels@)(key@) == (ChatPanels {
                right_active: RightSurface::Terminal(tab),
                ..(old(self).panels@)(key@)
            }),
            final(self).touches_only(*old(self), key@),
            *final(self) == (RightPane {
                panels: final(self).panels,
                tabs: final(self).tabs,
                ..*old(self)
            }),
            effect == SurfaceEffect::SelectTerminal(tab),
    {
        self.append(key, RightSurface::Terminal(tab))
    }

    /// The handle of the tab that shows the document, if one does.
    pub open spec fn tab_for(self, doc_id: Seq<char>) -> Option<u64> {
        first_tab_for(self.subagents@, doc_id)
    }

    fn find_doc(&self, doc_id: &str) -> (id: Option<u64>)
        ensures
            id == self.tab_for(doc_id@),
    {
        let mut i: usize = 0;
        assert(self.subagents@.skip(0) == self.subagents@);
        while i < self.subagents.len()
            invariant
                i <= self.subagents.len(),
                self.tab_for(doc_id@) == first_tab_for(self.subagents@.skip(i as int), doc_id@),
            decreases self.subagents.len() - i,
        {
            assert(self.subagents@.skip(i as int).skip(1) == self.subagents@.skip(i + 1));
            if same(self.subagents[i].doc_id.as_str(), doc_id) {
                return Some(self.subagents[i].id);
            }
            i += 1;
        }
        None
    }

    /// Brings a subagent's transcript to the front under `key`: the tab that
    /// shows it already, or a new one, whose document is then to be watched.
    pub fn open_subagent(&mut self, key: &str, doc_id: String, title: String) -> (watch: bool)
        requires
            old(self).wf(),
            old(self).subagent_seq < u64::MAX,
        ensures
            final(self).wf(),
            final(self).touches_only(*old(self), key@),
            watch == (old(self).tab_for(doc_id@) is None),
            !watch ==> {
                &&& final(self).panels@ == with_panels(
                    old(self).panels@,
                    key@,
                    ChatPanels {
                        right_active: RightSurface::Subagent(old(self).tab_for(doc_id@)->0),
                        ..(old(self).panels@)(key@)
                    },
                )
                &&& *final(self) == (RightPane { panels: final(self).panels, ..*old(self) })
            },
            watch ==> {
                let id = (old(self).subagent_seq + 1) as u64;
                &&& final(self).subagent_seq == id
                &&& final(self).subagents@ == old(self).subagents@.push(
                    SubagentTab { id, doc_id, title },
                )
                &&& final(self).stored(key@) == old(self).stored(key@).push(
                    RightSurface::Subagent(id),
                )
                &&& (final(self).panels@)(key@) == (ChatPanels {
                    right_active: RightSurface::Subagent(id),
                    ..(old(self).panels@)(key@)
                })
                &&& final(self).diff_seq == old(self).diff_seq
                &&& final(self).drag == old(self).drag
                &&& final(self).expanded == old(self).expanded
            },
    {
        match self.find_doc(doc_id.as_str()) {
            Some(id) => {
                self.set_active(key, RightSurface::Subagent(id), false);
                false
            },
            None => {
                proof {
                    lemma_more_handles(
                        self.tabs@,
                        self.diff_seq,
                        self.subagent_seq,
                        self.diff_seq,
                        (self.subagent_seq + 1) as u64,
                    );
                    lemma_no_tab_for(self.subagents@, doc_id@);
                }
                self.subagent_seq += 1;
                let id: u64 = self.subagent_seq;
                self.subagents.push(SubagentTab { id, doc_id, title });
                self.append(key, RightSurface::Subagent(id));
                true
            },
        }
    }

    /// Closes the tab of `surface` under `key`; a picked surface that closes
    /// leaves the picker picked.
    pub fn close(&mut self, key: &str, surface: RightSurface) -> (effect: SurfaceEffect)
        requires
            old(self).wf(),
        ensures
            final(self).wf(),
            final(self).stored(key@) == without(old(self).stored(key@), surface),
            (final(self).panels@)(key@) == (ChatPanels {
                right_active: if (old(self).panels@)(key@).right_active == surface {
                    RightSurface::Picker
                } else {
                    (old(self).panels@)(key@).right_active
                },
                ..(old(self).panels@)(key@)
            }),
            final(self).touches_only(*old(self), key@),
            *final(self) == (RightPane {
                panels: final(self).panels,
                tabs: final(self).tabs,
                subagents: final(self).subagents,
                ..*old(self)
            }),
            match surface {
                RightSurface::Diff(id) => effect == SurfaceEffect::DropDiff(id)
                    && final(self).subagents == old(self).subagents,
                RightSurface::Terminal(tab) => effect == SurfaceEffect::CloseTerminal(tab)
                    && final(self).subagents == old(self).subagents,
                RightSurface::Subagent(id) => match first_place(old(self).subagents@, id) {
                    Some(at) => {
                        &&& effect == SurfaceEffect::Unwatch(old(self).subagents@[at].doc_id)
                        &&& final(self).subagents@ == old(self).subagents@.remove(at)
                    },
                    None => effect is Nothing && final(self).subagents == old(self).subagents,
                },
                RightSurface::Picker => effect is Nothing && final(self).subagents
                    == old(self).subagents,
            },
    {
        let stored = self.tab_list(key);
        let mut kept: Vec<RightSurface> = Vec::new();
        let mut i: usize = 0;
        assert(without(stored@.take(0), surface) =~= Seq::<RightSurface>::empty()) by {
            reveal(Seq::filter);
        }
        while i < stored.len()
            invariant
                i <= stored.len(),
                self.wf(),
                stored@ == stored_tabs(self.tabs@, key@),
                forall|j: int|
                    0 <= j < kept@.len() ==> issued(
                        #[trigger] kept@[j],
                        self.diff_seq,
                        self.subagent_seq,
                    ),
                kept@ == without(stored@.take(i as int), surface),
            decreases stored.len() - i,
        {
            proof {
                reveal(Seq::filter);
                assert(stored@.take(i + 1).drop_last() =~= stored@.take(i as int));
            }
            if stored[i] != surface {
                kept.push(stored[i]);
            }
            i += 1;
        }
        assert(stored@.take(i as int) =~= stored@);
        proof {
            lemma_tabs_stay_issued(self.tabs@, key@, kept, self.diff_seq, self.subagent_seq);
        }
        self.tabs.insert(key, kept);
        let mut panels = self.panels.get(key);
        if panels.right_active == surface {
            panels.right_active = RightSurface::Picker;
        }
        self.panels.set(key, panels);
        match surface {
            RightSurface::Diff(id) => SurfaceEffect::DropDiff(id),
            RightSurface::Terminal(tab) => SurfaceEffect::CloseTerminal(tab),
            RightSurface::Subagent(id) => self.forget_subagent(id),
            RightSurface::Picker => SurfaceEffect::Nothing,
        }
    }

    /// Removes the subagent tab `id`, whose document is no longer watched.
    fn forget_subagent(&mut self, id: u64) -> (effect: SurfaceEffect)
        requires
            subagents_distinct(old(self).subagents@, old(self).subagent_seq),
        ensures
            subagents_distinct(final(self).subagents@, final(self).subagent_seq),
            *final(self) == (RightPane { subagents: final(self).subagents, ..*old(self) }),
            match first_place(old(self).subagents@, id) {
                Some(at) => {
                    &&& effect == SurfaceEffect::Unwatch(old(self).subagents@[at].doc_id)
                    &&& final(self).subagents@ == old(self).subagents@.remove(at)
                },
                None => effect is Nothing && final(self).subagents == old(self).subagents,
            },
    {
        proof {
            lemma_first_place(self.subagents@, id);
        }
        let mut i: usize = 0;
        assert(self.subagents@.skip(0) == self.subagents@);
        while i < self.subagents.len()
            invariant
                i <= self.subagents.len(),
                *self == *old(self),
                subagents_distinct(self.subagents@, self.subagent_seq),
                first_place(self.subagents@, id) == shifted(
                    first_place(self.subagents@.skip(i as int), id),
                    i as int,
                ),
            decreases self.subagents.len() - i,
        {
            assert(self.subagents@.skip(i as int).skip(1) == self.subagents@.skip(i + 1));
            if self.subagents[i].id == id {
                let tab = self.subagents.remove(i);
                return SurfaceEffect::Unwatch(tab.doc_id);
            }
            i += 1;
        }
        SurfaceEffect::Nothing
    }

    /// Opens or closes the pane under `key`. Closing always leaves the mode in
    /// which the pane takes the whole window; opening onto a diff brings it up to
    /// date.
    pub fn toggle(
        &mut self,
        key: &str,
        diffs: &Vec<(u64, String)>,
        terminals: &Vec<(u64, String)>,
    ) -> (toggled: (bool, SurfaceEffect))
        requires
            old(self).wf(),
        ensures
            final(self).wf(),
            toggled.0 == !(old(self).panels@)(key@).changes_open,
            toggled.1 == refreshed(
                toggled.0,
                old(self).active(key@, diffs@, terminals@),
                diffs@,
            ),
            final(self).panels@ == with_panels(
                old(self).panels@,
                key@,
                ChatPanels { changes_open: toggled.0, ..(old(self).panels@)(key@) },
            ),
            final(self).expanded == (toggled.0 && old(self).expanded),
            *final(self) == (RightPane {
                panels: final(self).panels,
                expanded: final(self).expanded,
                ..*old(self)
            }),
    {
        let open = self.panels.toggle_changes(key);
        if !open {
            self.expanded = false;
        }
        (open, self.shown(key, diffs, terminals).1)
    }

    /// Opens a subagent's transcript from the conversation: a pane that does not
    /// show is toggled first, and the transcript comes to its front. Hands back
    /// what the toggling asks for, and whether the document is to be watched.
    pub fn add_subagent_surface(
        &mut self,
        active_chat: &str,
        key: &str,
        doc_id: String,
        title: String,
        diffs: &Vec<(u64, String)>,
        terminals: &Vec<(u64, String)>,
    ) -> (added: (SurfaceEffect, bool))
        requires
            old(self).wf(),
            old(self).subagent_seq < u64::MAX,
        ensures
            final(self).wf(),
            final(self).touches_only(*old(self), key@),
            ({
                let before = (old(self).panels@)(key@);
                let shows = active_chat@.len() > 0 && before.changes_open;
                let known = old(self).tab_for(doc_id@);
                let id = match known {
                    Some(id) => id,
                    None => (old(self).subagent_seq + 1) as u64,
                };
                &&& (final(self).panels@)(key@) == (ChatPanels {
                    changes_open: shows || !before.changes_open,
                    right_active: RightSurface::Subagent(id),
                    ..before
                })
                &&& final(self).expanded == (old(self).expanded && (shows || !before.changes_open))
                &&& added.0 == refreshed(
                    !before.changes_open,
                    old(self).active(key@, diffs@, terminals@),
                    diffs@,
                )
                &&& added.1 == (known is None)
                &&& known is Some ==> {
                    &&& final(self).stored(key@) == old(self).stored(key@)
                    &&& final(self).subagents == old(self).subagents
                    &&& final(self).subagent_seq == old(self).subagent_seq
                }
                &&& known is None ==> {
                    &&& final(self).stored(key@) == old(self).stored(key@).push(
                        RightSurface::Subagent(id),
                    )
                    &&& final(self).subagents@ == old(self).subagents@.push(
                        SubagentTab { id, doc_id, title },
                    )
                    &&& final(self).subagent_seq == id
                }
                &&& final(self).diff_seq == old(self).diff_seq
                &&& final(self).drag == old(self).drag
            }),
            active_chat@.len() > 0 ==> (final(self).panels@)(key@).changes_open,
    {
        let effect = if self.is_open(active_chat, key) {
            SurfaceEffect::Nothing
        } else {
            self.toggle(key, diffs, terminals).1
        };
        let watch = self.open_subagent(key, doc_id, title);
        (effect, watch)
    }

    /// Enters or leaves the mode in which the pane takes the whole window.
    pub fn toggle_expanded(&mut self)
        ensures
            *final(self) == (RightPane { expanded: !old(self).expanded, ..*old(self) }),
    {
        self.expanded = !self.expanded;
    }
}

/// The handle of the first tab that shows the document.
pub open spec fn first_tab_for(tabs: Seq<SubagentTab>, doc_id: Seq<char>) -> Option<u64>
    decreases tabs.len(),
{
    if tabs.len() == 0 {
        None
    } else if tabs[0].doc_id@ == doc_id {
        Some(tabs[0].id)
    } else {
        first_tab_for(tabs.skip(1), doc_id)
    }
}

/// A position moved on by `by`.
pub open spec fn shifted(place: Option<int>, by: int) -> Option<int> {
    match place {
        Some(at) => Some(at + by),
        None => None,
    }
}

/// Where the first tab with the handle `id` stands.
pub open spec fn first_place(tabs: Seq<SubagentTab>, id: u64) -> Option<int>
    decreases tabs.len(),
{
    if tabs.len() == 0 {
        None
    } else if tabs[0].id == id {
        Some(0)
    } else {
        shifted(first_place(tabs.skip(1), id), 1)
    }
}

/// A surface that shows exists: its title is known, or it is the picker.
pub proof fn law_what_shows_exists(
    picked: RightSurface,
    stored: Seq<RightSurface>,
    diffs: Seq<(u64, String)>,
    terminals: Seq<(u64, String)>,
    subagents: Seq<SubagentTab>,
)
    ensures
        ({
            let shown = active_surface(picked, live_rows(stored, diffs, terminals, subagents));
            shown is Picker || surface_title(shown, diffs, terminals, subagents) is Some
        }),
{
    let rows = live_rows(stored, diffs, terminals, subagents);
    lemma_live_rows_exist(stored, diffs, terminals, subagents);
    let shown = active_surface(picked, rows);
    if picked !is Picker && exists|i: int| 0 <= i < rows.len() && (#[trigger] rows[i]).0 == picked {
        let i = choose|i: int| 0 <= i < rows.len() && (#[trigger] rows[i]).0 == picked;
        assert(rows[i].0 == shown);
    } else if rows.len() > 0 {
        assert(rows[0].0 == shown);
    }
}

proof fn lemma_live_rows_exist(
    stored: Seq<RightSurface>,
    diffs: Seq<(u64, String)>,
    terminals: Seq<(u64, String)>,
    subagents: Seq<SubagentTab>,
)
    ensures
        ({
            let rows = live_rows(stored, diffs, terminals, subagents);
            forall|i: int|
                0 <= i < rows.len() ==> surface_title(
                    (#[trigger] rows[i]).0,
                    diffs,
                    terminals,
                    subagents,
                ) is Some
        }),
    decreases stored.len(),
{
    if stored.len() > 0 {
        lemma_live_rows_exist(stored.drop_last(), diffs, terminals, subagents);
    }
}

/// The mark on a surface tab.
#[derive(Debug, Clone, Copy, PartialEq, Eq, Structural)]
pub enum TabMark {
    Branch,
    Agent,
    Terminal,
    /// The subagent of the tab is at work.
    Spinner,
}

/// Where a surface tab is drawn while one is dragged.
#[derive(Debug, Clone, Copy, PartialEq, Eq, Structural)]
pub enum TabPlace {
    /// In its slot.
    Still,
    /// Nowhere: its slot is left empty for the dragged tab.
    Spacer,
    /// On the way between where it stood and where it makes room.
    Sliding { from: usize, over: usize, prev_over: usize, epoch: usize },
}

/// One tab of the strip over the right pane.
#[derive(Debug)]
pub struct TabChip {
    pub surface: RightSurface,
    pub title: String,
    pub active: bool,
    pub mark: TabMark,
    pub place: TabPlace,
}

/// Whether the subagent of a transcript is at work: its last message is still
/// coming in.
pub fn subagent_runs(entries: &Vec<SessionMessageEntry>) -> (runs: bool)
    ensures
        runs == (entries@.len() > 0 && entries@.last().status == Some(MessageStatus::Streaming)),
{
    if entries.len() == 0 {
        return false;
    }
    match entries[entries.len() - 1].status {
        Some(MessageStatus::Streaming) => true,
        _ => false,
    }
}

/// The mark on the tab of `surface`, while the subagents of `running` are at
/// work.
pub open spec fn mark_of(surface: RightSurface, running: Seq<u64>) -> TabMark {
    match surface {
        RightSurface::Diff(_) => TabMark::Branch,
        RightSurface::Subagent(id) => if running.contains(id) {
            TabMark::Spinner
        } else {
            TabMark::Agent
        },
        _ => TabMark::Terminal,
    }
}

/// Where the tab in slot `ix` is drawn.
pub open spec fn place_of(ix: int, drag: Option<RightTabDragState>) -> TabPlace {
    match drag {
        Some(held) => if held.from == ix {
            TabPlace::Spacer
        } else {
            TabPlace::Sliding {
                from: held.from,
                over: held.over,
                prev_over: held.prev_over,
                epoch: held.epoch,
            }
        },
        None => TabPlace::Still,
    }
}

fn is_running(running: &Vec<u64>, id: u64) -> (found: bool)
    ensures
        found == running@.contains(id),
{
    let mut i: usize = 0;
    while i < running.len()
        invariant
            i <= running@.len(),
            forall|j: int| 0 <= j < i ==> running@[j] != id,
        decreases running.len() - i,
    {
        if running[i] == id {
            return true;
        }
        i += 1;
    }
    false
}

/// Whether `chip` is the tab of `row` in slot `ix`.
pub open spec fn chip_of(
    chip: TabChip,
    row: SurfaceRow,
    ix: int,
    active: RightSurface,
    running: Seq<u64>,
    drag: Option<RightTabDragState>,
) -> bool {
    &&& chip.surface == row.surface
    &&& chip.title@ == row.title@
    &&& chip.active == (row.surface == active)
    &&& chip.mark == mark_of(row.surface, running)
    &&& chip.place == place_of(ix, drag)
}

/// The strip over the right pane: one tab per row, in order.
pub fn tab_strip(
    rows: &Vec<SurfaceRow>,
    active: RightSurface,
    running: &Vec<u64>,
    drag: Option<RightTabDragState>,
) -> (chips: Vec<TabChip>)
    ensures
        chips@.len() == rows@.len(),
        forall|ix: int|
            0 <= ix < rows@.len() ==> chip_of(
                #[trigger] chips@[ix],
                rows@[ix],
                ix,
                active,
                running@,
                drag,
            ),
{
    let mut chips: Vec<TabChip> = Vec::new();
    let mut ix: usize = 0;
    while ix < rows.len()
        invariant
            ix <= rows@.len(),
            chips@.len() == ix,
            forall|j: int|
                0 <= j < ix ==> chip_of(#[trigger] chips@[j], rows@[j], j, active, running@, drag),
        decreases rows.len() - ix,
    {
        let surface = rows[ix].surface;
        let mark = match surface {
            RightSurface::Diff(_) => TabMark::Branch,
            RightSurface::Subagent(id) => {
                if is_running(running, id) {
                    TabMark::Spinner
                } else {
                    TabMark::Agent
                }
            },
            _ => TabMark::Terminal,
        };
        let place = match drag {
            Some(held) => {
                if held.from == ix {
                    TabPlace::Spacer
                } else {
                    TabPlace::Sliding {
                        from: held.from,
                        over: held.over,
                        prev_over: held.prev_over,
                        epoch: held.epoch,
                    }
                }
            },
            None => TabPlace::Still,
        };
        chips.push(
            TabChip {
                surface,
                title: rows[ix].title.clone(),
                active: surface == active,
                mark,
                place,
            },
        );
        ix += 1;
    }
    chips
}

/// Some tab of a strip that is not empty is marked as the one that shows.
pub proof fn law_the_shown_tab_is_marked(
    rows: Seq<SurfaceRow>,
    picked: RightSurface,
    running: Seq<u64>,
    chips: Seq<TabChip>,
    drag: Option<RightTabDragState>,
)
    requires
        rows.len() > 0,
        chips.len() == rows.len(),
        forall|ix: int|
            0 <= ix < rows.len() ==> chip_of(
                #[trigger] chips[ix],
                rows[ix],
                ix,
                active_surface(picked, row_views(rows)),
                running,
                drag,
            ),
    ensures
        exists|ix: int| 0 <= ix < chips.len() && (#[trigger] chips[ix]).active,
{
    let views = row_views(rows);
    let shown = active_surface(picked, views);
    law_no_dead_surface_shows(picked, views);
    let ix = choose|ix: int| 0 <= ix < views.len() && (#[trigger] views[ix]).0 == shown;
    assert(views[ix].0 == rows[ix].surface);
    assert(chips[ix].active);
}

/// A surface that can be opened.
#[derive(Debug, Clone, Copy, PartialEq, Eq, Structural)]
pub enum SurfaceChoice {
    Terminal,
    Git,
}

/// The surfaces that the picker and the menu of the strip offer: a terminal
/// anywhere, and git where the space has it.
pub fn surface_choices(git_detected: bool) -> (choices: Vec<SurfaceChoice>)
    ensures
        choices@ == if git_detected {
            seq![SurfaceChoice::Terminal, SurfaceChoice::Git]
        } else {
            seq![SurfaceChoice::Terminal]
        },
{
    let mut choices: Vec<SurfaceChoice> = Vec::new();
    choices.push(SurfaceChoice::Terminal);
    if git_detected {
        choices.push(SurfaceChoice::Git);
    }
    assert(choices@ =~= if git_detected {
        seq![SurfaceChoice::Terminal, SurfaceChoice::Git]
    } else {
        seq![SurfaceChoice::Terminal]
    });
    choices
}

/// The menu of the button that adds a tab to the strip. There is none on an
/// empty strip, where the picker offers the same.
pub fn add_menu(rows: &Vec<SurfaceRow>, git_detected: bool) -> (menu: Option<Vec<SurfaceChoice>>)
    ensures
        menu is Some == (rows@.len() > 0),
        menu is Some ==> menu->0@ == if git_detected {
            seq![SurfaceChoice::Terminal, SurfaceChoice::Git]
        } else {
            seq![SurfaceChoice::Terminal]
        },
{
    if rows.len() > 0 {
        Some(surface_choices(git_detected))
    } else {
        None
    }
}

/// What is kept for a chat is kept for it alone.
pub proof fn law_panels_are_kept_for_their_chat(
    panels: spec_fn(Seq<char>) -> ChatPanels,
    key: Seq<char>,
    value: ChatPanels,
    other: Seq<char>,
)
    ensures
        with_panels(panels, key, value)(key) == value,
        other != key ==> with_panels(panels, key, value)(other) == panels(other),
{
}

/// An open chat keeps its panels under its own id; without one each space has
/// a key of its own.
pub proof fn law_each_canvas_has_its_key(
    active_chat: Seq<char>,
    space: Option<Seq<char>>,
    a: Seq<char>,
    b: Seq<char>,
)
    ensures
        active_chat.len() > 0 ==> panel_key_of(active_chat, space) == active_chat,
        panel_key_of(Seq::empty(), Some(a)) == panel_key_of(Seq::empty(), Some(b)) ==> a == b,
        panel_key_of(Seq::empty(), Some(a)) == "space-canvas:"@ + a,
        panel_key_of(Seq::empty(), None) == "space-canvas:"@,
{
    let left = "space-canvas:"@ + a;
    let right = "space-canvas:"@ + b;
    let n = "space-canvas:"@.len() as int;
    assert(left.skip(n) =~= a);
    assert(right.skip(n) =~= b);
    assert("space-canvas:"@ + Seq::<char>::empty() =~= "space-canvas:"@);
}

/// A title is that of the first entry with the id, and there is none where no
/// entry has it.
pub proof fn law_a_title_is_found_by_its_id(titles: Seq<(u64, String)>, id: u64, i: int)
    ensures
        0 <= i < titles.len() && titles[i].0 == id && (forall|j: int|
            0 <= j < i ==> (#[trigger] titles[j]).0 != id) ==> title_of(titles, id) == Some(
            titles[i].1@,
        ),
        (forall|j: int| 0 <= j < titles.len() ==> (#[trigger] titles[j]).0 != id) ==> title_of(
            titles,
            id,
        ) is None,
    decreases titles.len(),
{
    if titles.len() > 0 {
        let rest = titles.skip(1);
        law_a_title_is_found_by_its_id(rest, id, i - 1);
        assert(forall|j: int| 0 <= j < rest.len() ==> rest[j] == titles[j + 1]);
        if 0 < i < titles.len() && titles[i].0 == id && (forall|j: int|
            0 <= j < i ==> (#[trigger] titles[j]).0 != id) {
            assert(titles[0].0 != id);
            assert forall|j: int| 0 <= j < i - 1 implies (#[trigger] rest[j]).0 != id by {
                assert(titles[j + 1].0 != id);
            }
        }
        if forall|j: int| 0 <= j < titles.len() ==> (#[trigger] titles[j]).0 != id {
            assert(titles[0].0 != id);
            assert forall|j: int| 0 <= j < rest.len() implies (#[trigger] rest[j]).0 != id by {
                assert(titles[j + 1].0 != id);
            }
        }
    }
}

/// The pane shows what was picked where that is still listed, else the first
/// thing listed, and the picker where nothing is.
pub proof fn law_the_picked_tab_shows_while_it_lives(
    picked: RightSurface,
    rows: Seq<(RightSurface, Seq<char>)>,
    i: int,
)
    ensures
        0 <= i < rows.len() && rows[i].0 == picked && !(picked is Picker) ==> active_surface(
            picked,
            rows,
        ) == picked,
        rows.len() > 0 && (forall|j: int| 0 <= j < rows.len() ==> (#[trigger] rows[j]).0 != picked)
            ==> active_surface(picked, rows) == rows[0].0,
        rows.len() == 0 ==> active_surface(picked, rows) is Picker,
{
}

/// A tab that is moved stands where it was dropped, and the others keep their
/// order; a move from or to nowhere changes nothing.
pub proof fn law_a_moved_tab_stands_where_it_was_dropped(
    tabs: Seq<RightSurface>,
    from: int,
    to: int,
)
    requires
        0 <= from,
        0 <= to,
    ensures
        from < tabs.len() && to < tabs.len() ==> reordered(tabs, from, to)[to] == tabs[from]
            && reordered(tabs, from, to).remove(to) == tabs.remove(from),
        !(from < tabs.len() && to < tabs.len()) ==> reordered(tabs, from, to) == tabs,
{
    if from < tabs.len() && to < tabs.len() {
        let moved = reordered(tabs, from, to);
        assert(moved.remove(to) =~= tabs.remove(from));
    }
}

/// Closing a tab takes it away and leaves the others.
pub proof fn law_closing_takes_one_tab_away(
    tabs: Seq<RightSurface>,
    surface: RightSurface,
    other: RightSurface,
)
    ensures
        !without(tabs, surface).contains(surface),
        other != surface ==> without(tabs, surface).contains(other) == tabs.contains(other),
    decreases tabs.len(),
{
    reveal(Seq::filter);
    if tabs.len() > 0 {
        let front = tabs.drop_last();
        let last = tabs.last();
        law_closing_takes_one_tab_away(front, surface, other);
        let kept = without(front, surface);
        let all = without(tabs, surface);
        if tabs.contains(other) && other != last {
            assert(front[tabs.index_of(other)] == other);
        }
        if front.contains(other) {
            assert(tabs[front.index_of(other)] == other);
        }
        if last != surface {
            assert(all == kept.push(last));
            assert(all[kept.len() as int] == last);
            if all.contains(other) && other != last {
                assert(kept[all.index_of(other)] == other);
            }
            if kept.contains(other) {
                assert(all[kept.index_of(other)] == other);
            }
            if all.contains(surface) {
                assert(kept[all.index_of(surface)] == surface);
            }
        } else {
            assert(all == kept);
        }
    }
}

/// The rows are the stored tabs that still exist, each under its title, in the
/// order in which they are stored.
pub proof fn law_rows_are_the_tabs_that_live(
    stored: Seq<RightSurface>,
    surface: RightSurface,
    diffs: Seq<(u64, String)>,
    terminals: Seq<(u64, String)>,
    subagents: Seq<SubagentTab>,
)
    ensures
        ({
            let rows = live_rows(stored, diffs, terminals, subagents);
            let title = surface_title(surface, diffs, terminals, subagents);
            &&& title is Some ==> live_rows(stored.push(surface), diffs, terminals, subagents)
                == rows.push((surface, title->0))
            &&& title is None ==> live_rows(stored.push(surface), diffs, terminals, subagents)
                == rows
            &&& surface is Picker ==> title is None
            &&& live_rows(Seq::empty(), diffs, terminals, subagents).len() == 0
        }),
{
    assert(stored.push(surface).drop_last() =~= stored);
}

/// A tab is titled after what it shows: the diff, the terminal or the subagent
/// of its id.
pub proof fn law_a_tab_is_titled_after_what_it_shows(
    id: u64,
    diffs: Seq<(u64, String)>,
    terminals: Seq<(u64, String)>,
    subagents: Seq<SubagentTab>,
)
    ensures
        surface_title(RightSurface::Diff(id), diffs, terminals, subagents) == title_of(diffs, id),
        surface_title(RightSurface::Terminal(id), diffs, terminals, subagents) == title_of(
            terminals,
            id,
        ),
        subagents.len() > 0 && subagents[0].id == id ==> surface_title(
            RightSurface::Subagent(id),
            diffs,
            terminals,
            subagents,
        ) == Some(subagents[0].title@),
        subagents.len() > 0 && subagents[0].id != id ==> surface_title(
            RightSurface::Subagent(id),
            diffs,
            terminals,
            subagents,
        ) == surface_title(RightSurface::Subagent(id), diffs, terminals, subagents.skip(1)),
{
}

/// Only a diff that is shown and exists is brought up to date.
pub proof fn law_only_a_shown_diff_is_refreshed(
    open: bool,
    surface: RightSurface,
    diffs: Seq<(u64, String)>,
    id: u64,
)
    ensures
        refreshed(open, surface, diffs) == SurfaceEffect::RefreshDiff(id) <==> (open && surface
            == RightSurface::Diff(id) && title_of(diffs, id) is Some),
        !(refreshed(open, surface, diffs) is RefreshDiff) ==> refreshed(open, surface, diffs)
            is Nothing,
{
}

/// A subagent turns while it runs; a tab is marked after what it shows, stands
/// still while none is dragged, and leaves a gap where it was taken from.
pub proof fn law_tabs_are_marked_after_what_they_show(
    surface: RightSurface,
    running: Seq<u64>,
    ix: int,
    held: RightTabDragState,
)
    ensures
        surface is Diff == mark_of(surface, running) is Branch,
        mark_of(surface, running) is Spinner == (surface is Subagent && running.contains(
            surface->Subagent_0,
        )),
        mark_of(surface, running) is Agent == (surface is Subagent && !running.contains(
            surface->Subagent_0,
        )),
        place_of(ix, None) is Still,
        place_of(ix, Some(held)) is Spacer == (ix == held.from),
        ix != held.from ==> place_of(ix, Some(held)) is Sliding && place_of(ix, Some(held))->over
            == held.over && place_of(ix, Some(held))->from == held.from,
{
}

/// The tab of a document is the first one that shows it.
pub proof fn law_a_document_has_its_tab(tabs: Seq<SubagentTab>, doc_id: Seq<char>, i: int)
    requires
        0 <= i < tabs.len(),
        tabs[i].doc_id@ == doc_id,
        forall|j: int| 0 <= j < i ==> (#[trigger] tabs[j]).doc_id@ != doc_id,
    ensures
        first_tab_for(tabs, doc_id) == Some(tabs[i].id),
    decreases tabs.len(),
{
    if i > 0 {
        let rest = tabs.skip(1);
        assert(tabs[0].doc_id@ != doc_id);
        assert forall|j: int| 0 <= j < i - 1 implies (#[trigger] rest[j]).doc_id@ != doc_id by {
            assert(tabs[j + 1].doc_id@ != doc_id);
        }
        law_a_document_has_its_tab(rest, doc_id, i - 1);
    }
}

/// A chat starts with everything closed and nothing picked.
pub proof fn law_everything_starts_closed()
    ensures
        !closed_panels().terminal_open,
        !closed_panels().changes_open,
        closed_panels().right_active is Picker,
{
}

/// A tab is drawn as what it shows: under its title, in its place, and as the
/// active one just where it is what the pane shows.
pub proof fn law_a_tab_is_drawn_as_what_it_shows(
    chip: TabChip,
    row: SurfaceRow,
    ix: int,
    active: RightSurface,
    running: Seq<u64>,
    drag: Option<RightTabDragState>,
)
    requires
        chip_of(chip, row, ix, active, running, drag),
    ensures
        chip.surface == row.surface,
        chip.title@ == row.title@,
        chip.active == (chip.surface == active),
        drag is None ==> chip.place is Still,
        drag is Some && drag->0.from == ix ==> chip.place is Spacer,
        row.surface is Terminal ==> chip.mark is Terminal,
        row.surface is Diff ==> chip.mark is Branch,
{
}

/// What is done in one chat leaves the tabs and the panels of the others.
pub proof fn law_other_chats_are_left_alone(
    after: RightPane,
    before: RightPane,
    key: Seq<char>,
    other: Seq<char>,
)
    requires
        after.touches_only(before, key),
        other != key,
    ensures
        after.stored(other) == before.stored(other),
        (after.panels@)(other) == (before.panels@)(other),
{
}

/// A subagent's tab is found by its id: the first one that has it, and none
/// where none has.
pub proof fn law_a_subagent_is_found_by_its_id(tabs: Seq<SubagentTab>, id: u64)
    ensures
        first_place(tabs, id) is Some ==> 0 <= first_place(tabs, id)->0 < tabs.len()
            && tabs[first_place(tabs, id)->0].id == id,
        forall|j: int|
            0 <= j < tabs.len() && (first_place(tabs, id) is None || j < first_place(tabs, id)->0)
                ==> (#[trigger] tabs[j]).id != id,
    decreases tabs.len(),
{
    if tabs.len() > 0 && tabs[0].id != id {
        let rest = tabs.skip(1);
        law_a_subagent_is_found_by_its_id(rest, id);
        assert forall|j: int|
            0 <= j < tabs.len() && (first_place(tabs, id) is None || j < first_place(
                tabs,
                id,
            )->0) implies (#[trigger] tabs[j]).id != id by {
            if j > 0 {
                assert(rest[j - 1] == tabs[j]);
            }
        }
    }
}

/// The ids that were given out tell the tabs apart: a later one names no tab
/// that there is.
pub proof fn law_a_new_handle_is_new(
    tabs: Seq<SubagentTab>,
    subagent_seq: u64,
    surface: RightSurface,
    diff_seq: u64,
    i: int,
)
    requires
        subagents_distinct(tabs, subagent_seq),
        issued(surface, diff_seq, subagent_seq),
    ensures
        0 <= i < tabs.len() ==> tabs[i].id <= subagent_seq,
        surface is Diff ==> surface->Diff_0 <= diff_seq,
        surface is Subagent ==> surface->Subagent_0 <= subagent_seq,
        !(surface is Picker),
{
}

/// A chat's tabs are those that are kept under its key, and none where nothing
/// is.
pub proof fn law_tabs_are_kept_under_their_key(
    tabs: Map<Seq<char>, Vec<RightSurface>>,
    key: Seq<char>,
)
    ensures
        tabs.dom().contains(key) ==> stored_tabs(tabs, key) == tabs[key]@,
        !tabs.dom().contains(key) ==> stored_tabs(tabs, key).len() == 0,
{
}

} // verus!

//! Routes and the history behind the back and forward buttons.

use vstd::prelude::*;

use crate::text::same;

verus! {

/// The sections of the settings.
#[derive(Debug, Clone, Copy, PartialEq, Eq, Structural)]
pub enum SettingsSection {
    Appearance,
    Notifications,
    Shortcuts,
    Archived,
}

impl SettingsSection {
    /// Every section, in the order of the settings sidebar.
    pub const ALL: [SettingsSection; 4] = [
        SettingsSection::Appearance,
        SettingsSection::Notifications,
        SettingsSection::Shortcuts,
        SettingsSection::Archived,
    ];

    /// What the section is called.
    pub open spec fn name(self) -> Seq<char> {
        match self {
            SettingsSection::Appearance => "Appearance"@,
            SettingsSection::Notifications => "Notifications"@,
            SettingsSection::Shortcuts => "Shortcuts"@,
            SettingsSection::Archived => "Archived sessions"@,
        }
    }

    /// What the section is called in the sidebar and in the header.
    pub fn label(self) -> (label: &'static str)
        ensures
            label@ == self.name(),
    {
        match self {
            SettingsSection::Appearance => "Appearance",
            SettingsSection::Notifications => "Notifications",
            SettingsSection::Shortcuts => "Shortcuts",
            SettingsSection::Archived => "Archived sessions",
        }
    }
}

/// What the main outlet shows.
#[derive(Debug, Clone, Copy, PartialEq, Eq, Structural)]
pub enum Route {
    Chat,
    Settings(SettingsSection),
}

/// One visited route: a chat, by its id, or a section of the settings. The
/// empty id stands for no selected chat.
#[derive(Debug, Clone, PartialEq, Eq)]
pub enum NavEntry {
    Chat(String),
    Settings(SettingsSection),
}

/// A visited route in contracts.
#[verifier::ext_equal]
pub enum Visit {
    Chat(Seq<char>),
    Settings(SettingsSection),
}

impl View for NavEntry {
    type V = Visit;

    open spec fn view(&self) -> Visit {
        match self {
            NavEntry::Chat(id) => Visit::Chat(id@),
            NavEntry::Settings(section) => Visit::Settings(*section),
        }
    }
}

impl NavEntry {
    /// Whether two entries are the same route.
    pub fn same_route(&self, other: &NavEntry) -> (equal: bool)
        ensures
            equal == (self@ == other@),
    {
        match (self, other) {
            (NavEntry::Chat(left), NavEntry::Chat(right)) => same(left.as_str(), right.as_str()),
            (NavEntry::Settings(left), NavEntry::Settings(right)) => *left == *right,
            _ => false,
        }
    }

    /// The same route again.
    pub fn duplicate(&self) -> (copy: NavEntry)
        ensures
            copy@ == self@,
    {
        match self {
            NavEntry::Chat(id) => NavEntry::Chat(id.clone()),
            NavEntry::Settings(section) => NavEntry::Settings(*section),
        }
    }
}

/// The visited routes, oldest first, and the one that is shown.
#[derive(Debug)]
pub struct NavHistory {
    entries: Vec<NavEntry>,
    index: usize,
}

/// A history in contracts: the visited routes and the position of the one
/// that is shown.
pub struct Trail {
    pub visits: Seq<Visit>,
    pub at: int,
}

/// The trail after a visit: nothing changes when the route is the one that is
/// shown; otherwise what lay ahead is dropped and the route comes last.
pub open spec fn visited(trail: Trail, visit: Visit) -> Trail {
    if trail.visits[trail.at] == visit {
        trail
    } else {
        Trail { visits: trail.visits.take(trail.at + 1).push(visit), at: trail.at + 1 }
    }
}

impl View for NavHistory {
    type V = Trail;

    closed spec fn view(&self) -> Trail {
        Trail {
            visits: self.entries@.map_values(|entry: NavEntry| entry@),
            at: self.index as int,
        }
    }
}

impl NavHistory {
    /// Whether the shown position is one of the visited routes.
    pub open spec fn wf(self) -> bool {
        0 <= self@.at < self@.visits.len()
    }

    /// A history that holds one route.
    pub fn new(initial: NavEntry) -> (history: Self)
        ensures
            history.wf(),
            history@.visits == seq![initial@],
            history@.at == 0,
    {
        let mut entries: Vec<NavEntry> = Vec::new();
        entries.push(initial);
        let history = NavHistory { entries, index: 0 };
        assert(history@.visits =~= seq![initial@]);
        history
    }

    /// The route that is shown.
    pub fn current(&self) -> (entry: &NavEntry)
        requires
            self.wf(),
        ensures
            entry@ == self@.visits[self@.at],
    {
        &self.entries[self.index]
    }

    /// Records a visit: the route that is shown is never stacked twice, and a
    /// visit from behind the tip drops what lay ahead.
    pub fn push(&mut self, entry: NavEntry)
        requires
            old(self).wf(),
        ensures
            final(self).wf(),
            final(self)@ == visited(old(self)@, entry@),
    {
        let ghost before = self@;
        if self.current().same_route(&entry) {
            return;
        }
        let length: usize = self.entries.len();
        let kept: usize = self.index + 1;
        assert(kept <= length);
        self.entries.truncate(kept);
        self.entries.push(entry);
        self.index = kept;
        assert(self@.visits =~= before.visits.take(before.at + 1).push(entry@));
    }

    /// Puts `entry` in the place of the route that is shown.
    pub fn replace(&mut self, entry: NavEntry)
        requires
            old(self).wf(),
        ensures
            final(self).wf(),
            final(self)@.visits == old(self)@.visits.update(old(self)@.at, entry@),
            final(self)@.at == old(self)@.at,
    {
        let ghost before = self@;
        self.entries.set(self.index, entry);
        assert(self@.visits =~= before.visits.update(before.at, entry@));
    }

    /// Whether an older route lies behind.
    pub fn can_back(&self) -> (can: bool)
        ensures
            can == (self@.at > 0),
    {
        self.index > 0
    }

    /// Whether a newer route lies ahead.
    pub fn can_forward(&self) -> (can: bool)
        requires
            self.wf(),
        ensures
            can == (self@.at + 1 < self@.visits.len()),
    {
        let length: usize = self.entries.len();
        self.index < length - 1
    }

    /// Steps back to the older route, if there is one.
    pub fn back(&mut self) -> (entry: Option<NavEntry>)
        requires
            old(self).wf(),
        ensures
            final(self).wf(),
            final(self)@.visits == old(self)@.visits,
            old(self)@.at > 0 ==> {
                &&& final(self)@.at == old(self)@.at - 1
                &&& entry is Some
                &&& entry->0@ == old(self)@.visits[old(self)@.at - 1]
            },
            old(self)@.at == 0 ==> entry is None && final(self)@.at == 0,
    {
        if !self.can_back() {
            return None;
        }
        self.index -= 1;
        Some(self.current().duplicate())
    }

    /// Steps forward to the newer route, if there is one.
    pub fn forward(&mut self) -> (entry: Option<NavEntry>)
        requires
            old(self).wf(),
        ensures
            final(self).wf(),
            final(self)@.visits == old(self)@.visits,
            old(self)@.at + 1 < old(self)@.visits.len() ==> {
                &&& final(self)@.at == old(self)@.at + 1
                &&& entry is Some
                &&& entry->0@ == old(self)@.visits[old(self)@.at + 1]
            },
            old(self)@.at + 1 == old(self)@.visits.len() ==> entry is None && final(self)@.at
                == old(self)@.at,
    {
        if !self.can_forward() {
            return None;
        }
        let length: usize = self.entries.len();
        assert(self.index + 1 < length);
        self.index += 1;
        Some(self.current().duplicate())
    }

    /// How many routes are held.
    pub fn len(&self) -> (count: usize)
        ensures
            count == self@.visits.len(),
    {
        self.entries.len()
    }
}

/// A visit can be undone and redone: from where it leads, one step back shows
/// the route before it, and one step forward from there shows it again. It
/// leaves nothing ahead, and a second visit to the same route changes nothing.
pub proof fn law_visits_walk_like_a_browser(trail: Trail, visit: Visit)
    requires
        0 <= trail.at < trail.visits.len(),
    ensures
        ({
            let after = visited(trail, visit);
            &&& 0 <= after.at < after.visits.len()
            &&& after.visits[after.at] == visit
            &&& visited(after, visit) == after
            &&& after != trail ==> {
                &&& after.at == trail.at + 1
                &&& after.visits.len() == after.at + 1
                &&& after.visits[after.at - 1] == trail.visits[trail.at]
                &&& after.visits.take(trail.at + 1) == trail.visits.take(trail.at + 1)
            }
        }),
{
    let after = visited(trail, visit);
    if trail.visits[trail.at] != visit {
        assert(after.visits.take(trail.at + 1) =~= trail.visits.take(trail.at + 1));
    }
}

/// Each section of the settings goes by a name of its own.
pub proof fn law_sections_go_by_their_names(a: SettingsSection, b: SettingsSection)
    ensures
        a.name() == b.name() ==> a == b,
        a is Appearance ==> a.name() == "Appearance"@,
        a is Notifications ==> a.name() == "Notifications"@,
        a is Shortcuts ==> a.name() == "Shortcuts"@,
        a is Archived ==> a.name() == "Archived sessions"@,
{
    reveal_strlit("Appearance");
    reveal_strlit("Notifications");
    reveal_strlit("Shortcuts");
    reveal_strlit("Archived sessions");
    assert("Appearance"@.len() == 10 && "Notifications"@.len() == 13);
    assert("Shortcuts"@.len() == 9 && "Archived sessions"@.len() == 17);
}

/// A visit to the route that is shown changes nothing; one to another route is
/// remembered behind it, and what lay ahead is forgotten.
pub proof fn law_only_a_new_route_is_remembered(trail: Trail, visit: Visit)
    requires
        0 <= trail.at < trail.visits.len(),
    ensures
        trail.visits[trail.at] == visit ==> visited(trail, visit) == trail,
        trail.visits[trail.at] != visit ==> visited(trail, visit).visits.len() == trail.at + 2
            && visited(trail, visit).at == trail.at + 1,
{
}

} // verus!

//! Where a new session goes, as the composer lists it: the agents of a device,
//! the devices, the refs of a repository, and the line that names them.

use vstd::prelude::*;

use crate::agent_dialog::Loadable;
use crate::keiki::SessionStatus;
use crate::order::as_ints;
use crate::order::in_order;
use crate::order::law_sorting_orders;
use crate::order::orders;
use crate::order::place_by;
use crate::order::sorted_by;
use crate::pickers::RepoRef;
use crate::pickers::MAX_REF_ROWS;
use crate::pickers::NO_ACTIVE_ROW;
use crate::rows::Device;
use crate::rows::Space;
use crate::text::concat3;
use crate::text::decimal;
use crate::text::decimal_string;
use crate::text::is_lexically_before;
use crate::text::lemma_lexical_chain;
use crate::text::lemma_lexical_total;
use crate::text::lexically_before;
use crate::text::optional;
use crate::text::same;
use crate::text::same_optional;

verus! {

/// Whether a space is listed: those of the canvas's device are, and all of them
/// while that is not known.
pub open spec fn in_scope(space: Space, device: Option<Seq<char>>) -> bool {
    device is None || device == Some(space.device_id@)
}

/// The places of the spaces that are listed among the first `n`.
pub open spec fn scoped(spaces: Seq<Space>, device: Option<Seq<char>>, n: int) -> Seq<int>
    decreases n,
{
    if n <= 0 {
        Seq::empty()
    } else {
        let front = scoped(spaces, device, n - 1);
        if in_scope(spaces[n - 1], device) {
            front.push(n - 1)
        } else {
            front
        }
    }
}

/// The places of the spaces that are listed.
pub fn scoped_space_rows(spaces: &Vec<Space>, device: &Option<String>) -> (rows: Vec<usize>)
    ensures
        as_ints(rows@) == scoped(spaces@, optional(*device), spaces@.len() as int),
        forall|i: int| 0 <= i < rows@.len() ==> #[trigger] rows@[i] < spaces@.len(),
{
    let mut rows: Vec<usize> = Vec::new();
    let mut k: usize = 0;
    assert(as_ints(rows@) =~= Seq::<int>::empty());
    while k < spaces.len()
        invariant
            k <= spaces@.len(),
            as_ints(rows@) == scoped(spaces@, optional(*device), k as int),
            forall|i: int| 0 <= i < rows@.len() ==> #[trigger] rows@[i] < k,
        decreases spaces.len() - k,
    {
        let listed = match device {
            Some(device) => same(spaces[k].device_id.as_str(), device.as_str()),
            None => true,
        };
        let ghost before = as_ints(rows@);
        if listed {
            rows.push(k);
            assert(as_ints(rows@) =~= before.push(k as int));
        }
        k += 1;
    }
    rows
}

/// Whether the spaces at `rows` come to the one of an id first at `at`.
pub open spec fn first_with_id(spaces: Seq<Space>, rows: Seq<int>, id: Seq<char>, at: int) -> bool {
    &&& 0 <= at < rows.len()
    &&& spaces[rows[at]].id@ == id
    &&& forall|j: int| 0 <= j < at ==> spaces[#[trigger] rows[j]].id@ != id
}

/// The row of the selected space. No row is highlighted where none is selected
/// or it is not listed.
pub fn selected_space_index(
    spaces: &Vec<Space>,
    device: &Option<String>,
    selected: &Option<String>,
) -> (index: usize)
    ensures
        ({
            let rows = scoped(spaces@, optional(*device), spaces@.len() as int);
            index == NO_ACTIVE_ROW && (*selected is None || forall|j: int|
                0 <= j < rows.len() ==> spaces@[#[trigger] rows[j]].id@ != selected->0@) || (
            *selected is Some && first_with_id(spaces@, rows, selected->0@, index as int))
        }),
{
    let id = match selected {
        Some(id) => id,
        None => {
            return NO_ACTIVE_ROW;
        },
    };
    let rows = scoped_space_rows(spaces, device);
    let ghost places = as_ints(rows@);
    let mut k: usize = 0;
    while k < rows.len()
        invariant
            k <= rows@.len(),
            *selected == Some(*id),
            places == as_ints(rows@),
            places == scoped(spaces@, optional(*device), spaces@.len() as int),
            forall|i: int| 0 <= i < rows@.len() ==> #[trigger] rows@[i] < spaces@.len(),
            forall|j: int| 0 <= j < k ==> spaces@[#[trigger] places[j]].id@ != id@,
        decreases rows.len() - k,
    {
        assert(places[k as int] == rows@[k as int]);
        if same(spaces[rows[k]].id.as_str(), id.as_str()) {
            return k;
        }
        k += 1;
    }
    NO_ACTIVE_ROW
}

/// What a text becomes in lower case.
pub uninterp spec fn lowercase(text: Seq<char>) -> Seq<char>;

/// `str::to_lowercase` of the standard library. Claimed: the result depends on
/// the text alone.
#[verifier::external_body]
fn to_lowercase(text: &str) -> (lower: String)
    ensures
        lower@ == lowercase(text@),
{
    text.to_lowercase()
}

/// Whether a device is listed before another: this device comes first, then
/// they go by their names without regard to case, then by their ids.
pub open spec fn device_precedes(a: Device, b: Device, local: Option<Seq<char>>) -> bool {
    let a_here = local == Some(a.id@);
    let b_here = local == Some(b.id@);
    if a_here != b_here {
        a_here
    } else if lowercase(a.name@) != lowercase(b.name@) {
        lexically_before(lowercase(a.name@), lowercase(b.name@))
    } else {
        lexically_before(a.id@, b.id@)
    }
}

/// Which of two devices is listed first.
pub open spec fn device_order(devices: Seq<Device>, local: Option<Seq<char>>) -> spec_fn(
    int,
    int,
) -> bool {
    |a: int, b: int| device_precedes(devices[a], devices[b], local)
}

/// All of them.
pub open spec fn every() -> spec_fn(int) -> bool {
    |k: int| true
}

/// The places of the devices, in the order in which they are listed.
pub open spec fn device_places(devices: Seq<Device>, local: Option<Seq<char>>) -> Seq<int> {
    sorted_by(every(), device_order(devices, local), devices.len() as int)
}

fn comes_before(a: &Device, b: &Device, local: &Option<String>) -> (before: bool)
    ensures
        before == device_precedes(*a, *b, optional(*local)),
{
    let a_here = same_optional(local, a.id.as_str());
    let b_here = same_optional(local, b.id.as_str());
    if a_here != b_here {
        return a_here;
    }
    let a_name = to_lowercase(a.name.as_str());
    let b_name = to_lowercase(b.name.as_str());
    if !same(a_name.as_str(), b_name.as_str()) {
        return is_lexically_before(a_name.as_str(), b_name.as_str());
    }
    is_lexically_before(a.id.as_str(), b.id.as_str())
}

fn find_place(devices: &Vec<Device>, rows: &Vec<usize>, item: usize, local: &Option<String>) -> (at:
    usize)
    requires
        item < devices@.len(),
        forall|j: int| 0 <= j < rows@.len() ==> #[trigger] rows@[j] < devices@.len(),
    ensures
        at == place_by(device_order(devices@, optional(*local)), as_ints(rows@), item as int),
        at <= rows@.len(),
{
    let ghost views = as_ints(rows@);
    let ghost precedes = device_order(devices@, optional(*local));
    let mut at: usize = 0;
    assert(views.skip(0) =~= views);
    while at < rows.len()
        invariant
            at <= rows@.len(),
            item < devices@.len(),
            views == as_ints(rows@),
            precedes == device_order(devices@, optional(*local)),
            forall|j: int| 0 <= j < rows@.len() ==> #[trigger] rows@[j] < devices@.len(),
            place_by(precedes, views, item as int) == at + place_by(
                precedes,
                views.skip(at as int),
                item as int,
            ),
        decreases rows.len() - at,
    {
        assert(views.skip(at as int).skip(1) =~= views.skip(at + 1));
        assert(views.skip(at as int)[0] == rows@[at as int]);
        if comes_before(&devices[item], &devices[rows[at]], local) {
            return at;
        }
        at += 1;
    }
    at
}

/// The places of the devices, in the order in which they are listed.
pub fn device_rows(devices: &Vec<Device>, local: &Option<String>) -> (rows: Vec<usize>)
    ensures
        as_ints(rows@) == device_places(devices@, optional(*local)),
        forall|j: int| 0 <= j < rows@.len() ==> #[trigger] rows@[j] < devices@.len(),
{
    let mut rows: Vec<usize> = Vec::new();
    let mut i: usize = 0;
    assert(as_ints(rows@) =~= Seq::<int>::empty());
    while i < devices.len()
        invariant
            i <= devices@.len(),
            as_ints(rows@) == sorted_by(
                every(),
                device_order(devices@, optional(*local)),
                i as int,
            ),
            forall|j: int| 0 <= j < rows@.len() ==> #[trigger] rows@[j] < i,
        decreases devices.len() - i,
    {
        let at = find_place(devices, &rows, i, local);
        let ghost before = as_ints(rows@);
        rows.insert(at, i);
        assert(as_ints(rows@) =~= before.insert(at as int, i as int));
        i += 1;
    }
    rows
}

/// Each device is listed once, this one first and the others by their names.
pub proof fn law_devices_come_in_order(devices: Seq<Device>, local: Option<Seq<char>>)
    ensures
        in_order(
            every(),
            device_order(devices, local),
            devices.len() as int,
            device_places(devices, local),
        ),
{
    let precedes = device_order(devices, local);
    assert forall|a: int, b: int| #[trigger] precedes(a, b) implies !precedes(b, a) by {
        lemma_lexical_total(lowercase(devices[a].name@), lowercase(devices[b].name@));
        lemma_lexical_total(devices[a].id@, devices[b].id@);
    }
    assert forall|a: int, b: int, c: int| #[trigger] precedes(a, b) implies #[trigger] precedes(
        a,
        c,
    ) || precedes(c, b) by {
        let (an, bn, cn) = (
            lowercase(devices[a].name@),
            lowercase(devices[b].name@),
            lowercase(devices[c].name@),
        );
        let (ai, bi, ci) = (devices[a].id@, devices[b].id@, devices[c].id@);
        lemma_lexical_total(an, cn);
        lemma_lexical_total(cn, bn);
        lemma_lexical_total(an, bn);
        lemma_lexical_total(ai, ci);
        lemma_lexical_total(ci, bi);
        if lexically_before(cn, an) && lexically_before(an, bn) {
            lemma_lexical_chain(cn, an, bn);
        }
        if lexically_before(ci, ai) && lexically_before(ai, bi) {
            lemma_lexical_chain(ci, ai, bi);
        }
    }
    assert(orders(precedes));
    law_sorting_orders(every(), precedes, devices.len() as int);
}

/// The row of a device among those listed, or the first.
pub fn selected_device_index(devices: &Vec<Device>, rows: &Vec<usize>, id: &Option<String>) -> (index:
    usize)
    requires
        forall|j: int| 0 <= j < rows@.len() ==> #[trigger] rows@[j] < devices@.len(),
    ensures
        (index == 0 && forall|j: int|
            0 <= j < rows@.len() ==> optional(*id) != Some(
                devices@[(#[trigger] rows@[j]) as int].id@,
            )) || (index < rows@.len() && optional(*id) == Some(
            devices@[rows@[index as int] as int].id@,
        ) && forall|j: int|
            0 <= j < index ==> optional(*id) != Some(devices@[(#[trigger] rows@[j]) as int].id@)),
{
    let mut k: usize = 0;
    while k < rows.len()
        invariant
            k <= rows@.len(),
            forall|j: int| 0 <= j < rows@.len() ==> #[trigger] rows@[j] < devices@.len(),
            forall|j: int|
                0 <= j < k ==> optional(*id) != Some(devices@[(#[trigger] rows@[j]) as int].id@),
        decreases rows.len() - k,
    {
        if same_optional(id, devices[rows[k]].id.as_str()) {
            return k;
        }
        k += 1;
    }
    0
}

/// How a device is drawn.
#[derive(Debug)]
pub struct DeviceRow {
    pub label: String,
    pub selected: bool,
    pub active: bool,
    /// Whether it is this one.
    pub here: bool,
    pub offline: bool,
}

/// How a device is drawn, at the row `row`.
pub fn device_row(
    device: &Device,
    row: usize,
    active: usize,
    selected: &Option<String>,
    local: &Option<String>,
    online: bool,
) -> (drawn: DeviceRow)
    ensures
        drawn.label@ == device.name@,
        drawn.selected == (optional(*selected) == Some(device.id@)),
        drawn.active == (row == active),
        drawn.here == (optional(*local) == Some(device.id@)),
        drawn.offline == !online,
{
    DeviceRow {
        label: device.name.clone(),
        selected: same_optional(selected, device.id.as_str()),
        active: row == active,
        here: same_optional(local, device.id.as_str()),
        offline: !online,
    }
}

/// How a ref is drawn.
#[derive(Debug)]
pub struct RefRow {
    pub name: String,
    pub selected: bool,
    pub active: bool,
    pub tag: Option<&'static str>,
    pub switching: bool,
}

/// What the picker of refs shows.
#[derive(Debug)]
pub enum RefList {
    /// There is nothing to list the refs of.
    NoAgent,
    Loading,
    Error(String),
    /// The search leaves none.
    Empty,
    /// The rows, and a line below them where not all are listed.
    Rows(Vec<RefRow>, Option<String>),
}

/// The tag of a ref.
pub open spec fn tag_of(row: RepoRef) -> Option<Seq<char>> {
    if row.current {
        Some("current"@)
    } else if row.worktree_path is Some {
        Some("worktree"@)
    } else {
        None
    }
}

/// Whether `drawn` draws the ref at `row`.
pub open spec fn draws_ref(
    drawn: RefRow,
    reference: RepoRef,
    row: int,
    active: int,
    selected: Option<Seq<char>>,
    switching: Option<Seq<char>>,
) -> bool {
    &&& drawn.name@ == reference.name@
    &&& drawn.selected == (selected == Some(reference.name@))
    &&& drawn.active == (row == active)
    &&& match drawn.tag {
        Some(tag) => tag_of(reference) == Some(tag@),
        None => tag_of(reference) is None,
    }
    &&& drawn.switching == (switching == Some(reference.name@))
}

fn draw_ref(
    reference: &RepoRef,
    row: usize,
    active: usize,
    selected: &Option<String>,
    switching: &Option<String>,
) -> (drawn: RefRow)
    ensures
        draws_ref(
            drawn,
            *reference,
            row as int,
            active as int,
            optional(*selected),
            optional(*switching),
        ),
{
    RefRow {
        name: reference.name.clone(),
        selected: same_optional(selected, reference.name.as_str()),
        active: row == active,
        tag: if reference.current {
            Some("current")
        } else if reference.worktree_path.is_some() {
            Some("worktree")
        } else {
            None
        },
        switching: same_optional(switching, reference.name.as_str()),
    }
}

/// How many of so many refs are listed.
pub open spec fn listed_refs(total: nat) -> nat {
    if total < MAX_REF_ROWS {
        total
    } else {
        MAX_REF_ROWS as nat
    }
}

/// What the picker of refs shows of the rows that the search leaves. The
/// session's branch is the selected one, else the picked one.
pub fn ref_list(
    agent: bool,
    refs: &Loadable<Vec<RepoRef>>,
    rows: &Vec<RepoRef>,
    session_branch: &Option<String>,
    picked: &Option<String>,
    switching: &Option<String>,
    active: usize,
) -> (list: RefList)
    ensures
        if !agent {
            list is NoAgent
        } else {
            match *refs {
                Loadable::Idle | Loadable::Loading => list is Loading,
                Loadable::Error(message) => list is Error && list->Error_0@ == message@,
                Loadable::Ready(_) => if rows@.len() == 0 {
                    list is Empty
                } else {
                    let selected = if *session_branch is Some {
                        optional(*session_branch)
                    } else {
                        optional(*picked)
                    };
                    &&& list is Rows
                    &&& list->Rows_0@.len() == listed_refs(rows@.len())
                    &&& forall|i: int|
                        0 <= i < list->Rows_0@.len() ==> draws_ref(
                            #[trigger] list->Rows_0@[i],
                            rows@[i],
                            i,
                            active as int,
                            selected,
                            optional(*switching),
                        )
                    &&& optional(list->Rows_1) == (if rows@.len() > listed_refs(rows@.len()) {
                        Some(
                            "Showing "@ + decimal(listed_refs(rows@.len())) + " of "@ + decimal(
                                rows@.len(),
                            ) + " refs"@,
                        )
                    } else {
                        None
                    })
                },
            }
        },
{
    if !agent {
        return RefList::NoAgent;
    }
    match refs {
        Loadable::Idle | Loadable::Loading => {
            return RefList::Loading;
        },
        Loadable::Error(message) => {
            return RefList::Error(message.clone());
        },
        Loadable::Ready(_) => {},
    }
    if rows.len() == 0 {
        return RefList::Empty;
    }
    let shown: usize = if rows.len() < MAX_REF_ROWS {
        rows.len()
    } else {
        MAX_REF_ROWS
    };
    let selected = if session_branch.is_some() {
        session_branch
    } else {
        picked
    };
    let mut drawn: Vec<RefRow> = Vec::new();
    let mut k: usize = 0;
    while k < shown
        invariant
            k <= shown <= rows@.len(),
            drawn@.len() == k,
            forall|i: int|
                0 <= i < k ==> draws_ref(
                    #[trigger] drawn@[i],
                    rows@[i],
                    i,
                    active as int,
                    optional(*selected),
                    optional(*switching),
                ),
        decreases shown - k,
    {
        drawn.push(draw_ref(&rows[k], k, active, selected, switching));
        k += 1;
    }
    let note = if rows.len() > shown {
        let shown_text = decimal_string(shown as u64);
        let total_text = decimal_string(rows.len() as u64);
        let head = concat3("Showing ", shown_text.as_str(), " of ");
        Some(concat3(head.as_str(), total_text.as_str(), " refs"))
    } else {
        None
    };
    RefList::Rows(drawn, note)
}

/// What the picker of agents offers below its rows.
#[derive(Debug, Clone, Copy, PartialEq, Eq, Structural)]
pub enum SpaceAction {
    /// The palette that adds an agent.
    NewAgent,
    /// The dialog that makes an agent in the cloud.
    NewKeikiAgent,
}

/// What the picker of agents offers below its rows: agents in the cloud are made
/// by those who are signed in.
pub fn space_actions(status: SessionStatus) -> (actions: Vec<SpaceAction>)
    ensures
        actions@ == if status is SignedIn {
            seq![SpaceAction::NewAgent, SpaceAction::NewKeikiAgent]
        } else {
            seq![SpaceAction::NewAgent]
        },
{
    match status {
        SessionStatus::SignedIn => vec![SpaceAction::NewAgent, SpaceAction::NewKeikiAgent],
        _ => vec![SpaceAction::NewAgent],
    }
}

/// What the picker of agents says where it lists none.
pub fn no_spaces(searching: bool) -> (message: &'static str)
    ensures
        message@ == if searching {
            "No agents match."@
        } else {
            "No agents on this device."@
        },
{
    if searching {
        "No agents match."
    } else {
        "No agents on this device."
    }
}

/// What the two chips above the composer say: the device and the agent.
pub fn target_labels(device_name: Option<&str>, agent_name: Option<&str>) -> (labels: (
    String,
    String,
))
    ensures
        labels.0@ == match device_name {
            Some(name) => name@,
            None => "This device"@,
        },
        labels.1@ == match agent_name {
            Some(name) => name@,
            None => "No agent"@,
        },
{
    let device = match device_name {
        Some(name) => name.to_owned(),
        None => "This device".to_owned(),
    };
    let agent = match agent_name {
        Some(name) => name.to_owned(),
        None => "No agent".to_owned(),
    };
    (device, agent)
}

/// The line below the composer.
#[derive(Debug)]
pub enum Footer {
    /// The agent's folder holds no repository.
    Hidden,
    /// A session says where it runs and on what.
    Session { checkout: &'static str, reference: String },
    /// A new one is still asked.
    Draft,
}

/// The line below the composer. `session` holds the folder and the branch of
/// the session, once there is one.
pub fn footer(space: Option<&Space>, session: Option<(&Option<String>, &Option<String>)>) -> (line:
    Footer)
    ensures
        match space {
            None => line is Hidden,
            Some(space) => if !space.git_detected {
                line is Hidden
            } else {
                match session {
                    None => line is Draft,
                    Some((cwd, branch)) => {
                        &&& line is Session
                        &&& line->checkout@ == (if *cwd is Some && cwd->0@ != space.path@ {
                            "Worktree"@
                        } else {
                            "Local checkout"@
                        })
                        &&& line->reference@ == match *branch {
                            Some(branch) => branch@,
                            None => "No ref"@,
                        }
                    },
                }
            },
        },
{
    let space = match space {
        Some(space) => space,
        None => {
            return Footer::Hidden;
        },
    };
    if !space.git_detected {
        return Footer::Hidden;
    }
    match session {
        None => Footer::Draft,
        Some((cwd, branch)) => {
            let elsewhere = match cwd {
                Some(cwd) => !same(cwd.as_str(), space.path.as_str()),
                None => false,
            };
            Footer::Session {
                checkout: if elsewhere {
                    "Worktree"
                } else {
                    "Local checkout"
                },
                reference: match branch {
                    Some(branch) => branch.clone(),
                    None => "No ref".to_owned(),
                },
            }
        },
    }
}

/// The rows are the spaces of the device that is chosen, all of them where none
/// is, each once and in the order in which they are listed.
pub proof fn law_rows_are_the_spaces_in_scope(
    spaces: Seq<Space>,
    device: Option<Seq<char>>,
    n: int,
    k: int,
)
    ensures
        scoped(spaces, device, n).contains(k) == (0 <= k < n && (device is None || device->0
            == spaces[k].device_id@)),
        forall|i: int, j: int|
            0 <= i < j < scoped(spaces, device, n).len() ==> #[trigger] scoped(spaces, device, n)[i]
                < #[trigger] scoped(spaces, device, n)[j],
        forall|i: int|
            0 <= i < scoped(spaces, device, n).len() ==> 0 <= #[trigger] scoped(
                spaces,
                device,
                n,
            )[i] < n,
    decreases n,
{
    if n > 0 {
        law_rows_are_the_spaces_in_scope(spaces, device, n - 1, k);
        let front = scoped(spaces, device, n - 1);
        let all = scoped(spaces, device, n);
        if in_scope(spaces[n - 1], device) {
            assert(all[front.len() as int] == n - 1);
            if front.contains(k) {
                assert(all[front.index_of(k)] == k);
            }
            if all.contains(k) && k != n - 1 {
                assert(front[all.index_of(k)] == k);
            }
        }
    }
}

/// The device at hand comes first; the others come by name, whatever its case,
/// and devices of one name by id.
pub proof fn law_the_device_at_hand_comes_first(a: Device, b: Device, local: Option<Seq<char>>)
    ensures
        local == Some(a.id@) && local != Some(b.id@) ==> device_precedes(a, b, local)
            && !device_precedes(b, a, local),
        local != Some(a.id@) && local != Some(b.id@) && lexically_before(
            lowercase(a.name@),
            lowercase(b.name@),
        ) ==> device_precedes(a, b, local),
        local != Some(a.id@) && local != Some(b.id@) && lowercase(a.name@) == lowercase(b.name@)
            ==> device_precedes(a, b, local) == lexically_before(a.id@, b.id@),
{
    lemma_lexical_total(lowercase(a.name@), lowercase(b.name@));
}

/// A ref that is checked out is tagged so, whether it has a worktree or not; of
/// the others only those with a worktree are tagged.
pub proof fn law_refs_are_tagged_by_where_they_are(row: RepoRef)
    ensures
        row.current ==> tag_of(row) == Some("current"@),
        !row.current && row.worktree_path is Some ==> tag_of(row) == Some("worktree"@),
        !row.current && row.worktree_path is None ==> tag_of(row) is None,
{
}

/// All refs are listed up to a limit.
pub proof fn law_refs_are_listed_up_to_a_limit(total: nat)
    ensures
        total <= MAX_REF_ROWS ==> listed_refs(total) == total,
        total > MAX_REF_ROWS ==> listed_refs(total) == MAX_REF_ROWS,
{
}

/// A drawn ref goes by its name, and is marked where it is the selected one,
/// the active row or the one that is being switched to.
pub proof fn law_a_drawn_ref_is_the_ref(
    drawn: RefRow,
    reference: RepoRef,
    row: int,
    active: int,
    selected: Option<Seq<char>>,
    switching: Option<Seq<char>>,
)
    requires
        draws_ref(drawn, reference, row, active, selected, switching),
    ensures
        drawn.name@ == reference.name@,
        drawn.selected ==> selected is Some && selected->0 == drawn.name@,
        selected is Some && selected->0 == reference.name@ ==> drawn.selected,
        drawn.active == (row == active),
        drawn.switching ==> switching is Some && switching->0 == drawn.name@,
        switching is Some && switching->0 == reference.name@ ==> drawn.switching,
        drawn.tag is Some == (reference.current || reference.worktree_path is Some),
{
}

/// Every device is listed.
pub proof fn law_every_device_is_listed(devices: Seq<Device>, local: Option<Seq<char>>, k: int)
    requires
        0 <= k < devices.len(),
    ensures
        device_places(devices, local).contains(k),
{
    law_devices_come_in_order(devices, local);
    assert(every()(k));
}

/// No device is listed twice; the one at hand comes before all others, and of
/// two others never the one whose name comes later before the one whose name
/// comes earlier.
pub proof fn law_no_device_stands_before_an_earlier_one(
    devices: Seq<Device>,
    local: Option<Seq<char>>,
    i: int,
    j: int,
)
    requires
        0 <= i < j < device_places(devices, local).len(),
    ensures
        ({
            let rows = device_places(devices, local);
            let first = devices[rows[i]];
            let second = devices[rows[j]];
            &&& 0 <= rows[i] < devices.len() && 0 <= rows[j] < devices.len()
            &&& rows[i] != rows[j]
            &&& local == Some(second.id@) ==> local == Some(first.id@)
            &&& local != Some(first.id@) ==> !lexically_before(
                lowercase(second.name@),
                lowercase(first.name@),
            )
        }),
{
    let rows = device_places(devices, local);
    law_devices_come_in_order(devices, local);
    assert(!device_order(devices, local)(rows[j], rows[i]));
    lemma_lexical_total(
        lowercase(devices[rows[i]].name@),
        lowercase(devices[rows[j]].name@),
    );
}

/// The row of a space is the first one that has its id, and there is no other
/// such row.
pub proof fn law_a_space_has_one_first_row(
    spaces: Seq<Space>,
    rows: Seq<int>,
    id: Seq<char>,
    at: int,
    other: int,
)
    ensures
        first_with_id(spaces, rows, id, at) == (0 <= at < rows.len() && spaces[rows[at]].id@ == id
            && forall|j: int| 0 <= j < at ==> spaces[#[trigger] rows[j]].id@ != id),
        first_with_id(spaces, rows, id, at) && first_with_id(spaces, rows, id, other) ==> at
            == other,
{
    if first_with_id(spaces, rows, id, at) && first_with_id(spaces, rows, id, other) {
        if at < other {
            assert(spaces[rows[at]].id@ != id);
        } else if other < at {
            assert(spaces[rows[other]].id@ != id);
        }
    }
}

} // verus!

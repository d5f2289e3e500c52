//! The composer's pickers: which agent, device, ref and checkout a new session
//! is given, and with what it runs.

use vstd::prelude::*;

use crate::agent_dialog::Loadable;
use crate::json::copy_value;
use crate::json::is_object;
use crate::json::members;
use crate::json::new_object;
use crate::json::no_members;
use crate::json::set_text;
use crate::json::Member;
use crate::rows::Space;
use crate::text::concat;
use crate::text::optional;
use crate::text::same;
use crate::text::same_optional;
use crate::text::same_options;

verus! {

/// The most refs that are listed.
pub const MAX_REF_ROWS: usize = 300;

/// No row is highlighted.
pub const NO_ACTIVE_ROW: usize = usize::MAX;

/// What runs a session.
#[derive(Debug, Clone, PartialEq, Eq)]
pub enum HarnessId {
    Copilot,
    Mock,
    Unknown(String),
}

#[derive(Debug, Clone, Copy, PartialEq, Eq, Structural)]
pub enum ReasoningLevel {
    Low,
    Medium,
    High,
}

/// What a session may touch.
#[derive(Debug, Clone, Copy, PartialEq, Eq, Structural)]
pub enum SandboxLevel {
    WorkspaceWrite,
}

/// When a running session takes a message.
#[derive(Debug, Clone, Copy, PartialEq, Eq, Structural)]
pub enum SteeringMode {
    TurnBoundary,
}

/// Where a new session runs.
#[derive(Debug, Clone, Copy, PartialEq, Eq, Structural)]
pub enum CheckoutKind {
    /// In the space's own folder, or in the worktree that the ref has already.
    Local,
    /// In a worktree that is made for it.
    NewWorktree,
}

/// What is done about the checkout when the first message is sent.
#[derive(Debug, PartialEq, Eq)]
pub enum CheckoutPlan {
    /// Run in the space's folder. The branch is unknown while the refs are.
    CurrentCheckout { branch: Option<String> },
    /// Run in the worktree that the ref has already.
    ReuseWorktree { path: String, branch: String },
    /// Make a worktree off the base. That is unknown while the refs are.
    NewWorktree { base: Option<String> },
}

/// What a session is recorded with.
#[derive(Debug)]
pub struct ChatConfig {
    pub harness: HarnessId,
    pub model: Option<String>,
    pub reasoning: Option<ReasoningLevel>,
    pub model_options: serde_json::Value,
    pub sandbox: SandboxLevel,
}

/// What is picked before a session exists.
#[derive(Debug)]
pub struct DraftConfig {
    pub harness: Option<HarnessId>,
    pub model: Option<String>,
    pub reasoning: Option<ReasoningLevel>,
    /// An object: under each option the choice.
    pub model_options: serde_json::Value,
    /// The picked ref; the repository's current branch, where none is.
    pub branch: Option<String>,
    pub checkout: CheckoutKind,
}

/// What a session runs with.
#[derive(Debug)]
pub struct ResolvedRunConfig {
    pub harness: Option<HarnessId>,
    pub model: Option<String>,
    pub reasoning: Option<ReasoningLevel>,
    pub model_options: serde_json::Value,
}

impl HarnessId {
    /// Another of the same.
    pub fn duplicate(&self) -> (copy: HarnessId)
        ensures
            copy == *self,
    {
        match self {
            HarnessId::Copilot => HarnessId::Copilot,
            HarnessId::Mock => HarnessId::Mock,
            HarnessId::Unknown(name) => HarnessId::Unknown(name.clone()),
        }
    }
}

impl Default for ResolvedRunConfig {
    fn default() -> (none: Self)
        ensures
            none.harness is None,
            none.model is None,
            none.reasoning is None,
            is_object(none.model_options),
            members(none.model_options) == no_members(),
    {
        ResolvedRunConfig {
            harness: None,
            model: None,
            reasoning: None,
            model_options: new_object(),
        }
    }
}

impl ResolvedRunConfig {
    /// What the session is recorded with, once it is known what runs it.
    pub fn chat_config(&self) -> (config: Option<ChatConfig>)
        ensures
            config == match self.harness {
                Some(harness) => Some(
                    ChatConfig {
                        harness,
                        model: self.model,
                        reasoning: self.reasoning,
                        model_options: self.model_options,
                        sandbox: SandboxLevel::WorkspaceWrite,
                    },
                ),
                None => None,
            },
    {
        match &self.harness {
            Some(harness) => Some(
                ChatConfig {
                    harness: harness.duplicate(),
                    model: match &self.model {
                        Some(model) => Some(model.clone()),
                        None => None,
                    },
                    reasoning: self.reasoning,
                    model_options: copy_value(&self.model_options),
                    sandbox: SandboxLevel::WorkspaceWrite,
                },
            ),
            None => None,
        }
    }
}

impl Default for DraftConfig {
    fn default() -> (none: Self)
        ensures
            none.harness is None,
            none.model is None,
            none.reasoning is None,
            is_object(none.model_options),
            members(none.model_options) == no_members(),
            none.branch is None,
            none.checkout is Local,
    {
        DraftConfig {
            harness: None,
            model: None,
            reasoning: None,
            model_options: new_object(),
            branch: None,
            checkout: CheckoutKind::Local,
        }
    }
}

/// What runs a session: what was picked, else what the session has, else the
/// copilot.
pub open spec fn effective_harness(draft: DraftConfig, chat: Option<ChatConfig>) -> HarnessId {
    match draft.harness {
        Some(harness) => harness,
        None => match chat {
            Some(config) => config.harness,
            None => HarnessId::Copilot,
        },
    }
}

/// The model of a session: what was picked, else what the session has, else
/// the copilot's.
pub open spec fn effective_model(draft: DraftConfig, chat: Option<ChatConfig>) -> Seq<char> {
    match draft.model {
        Some(model) => model@,
        None => match chat {
            Some(config) => match config.model {
                Some(model) => model@,
                None => "copilot"@,
            },
            None => "copilot"@,
        },
    }
}

/// What the session runs with. Its options are its own, once it exists.
pub fn resolve(draft: &DraftConfig, chat: Option<&ChatConfig>) -> (resolved: ResolvedRunConfig)
    ensures
        ({
            let config = match chat {
                Some(config) => Some(*config),
                None => None,
            };
            &&& resolved.harness == Some(effective_harness(*draft, config))
            &&& optional(resolved.model) == Some(effective_model(*draft, config))
            &&& resolved.reasoning is None
            &&& resolved.model_options == match config {
                Some(config) => config.model_options,
                None => draft.model_options,
            }
        }),
{
    let harness = match &draft.harness {
        Some(harness) => harness.duplicate(),
        None => match chat {
            Some(config) => config.harness.duplicate(),
            None => HarnessId::Copilot,
        },
    };
    let model = match &draft.model {
        Some(model) => model.clone(),
        None => match chat {
            Some(config) => match &config.model {
                Some(model) => model.clone(),
                None => "copilot".to_owned(),
            },
            None => "copilot".to_owned(),
        },
    };
    let model_options = match chat {
        Some(config) => copy_value(&config.model_options),
        None => copy_value(&draft.model_options),
    };
    ResolvedRunConfig { harness: Some(harness), model: Some(model), reasoning: None, model_options }
}

/// When a session that runs with `resolved` takes a message, where that is
/// known.
pub fn steering_mode(resolved: &ResolvedRunConfig) -> (mode: Option<SteeringMode>)
    ensures
        mode == if resolved.harness is Some && resolved.harness->0 is Copilot {
            Some(SteeringMode::TurnBoundary)
        } else {
            None
        },
{
    match &resolved.harness {
        Some(HarnessId::Copilot) => Some(SteeringMode::TurnBoundary),
        _ => None,
    }
}

/// A ref of a repository.
#[derive(Debug)]
pub struct RepoRef {
    pub name: String,
    pub current: bool,
    pub worktree_path: Option<String>,
}

/// Which picker is open.
#[derive(Debug, Clone, Copy, PartialEq, Eq, Structural)]
pub enum PickerKind {
    Branch,
    Checkout,
    Space,
    Device,
}

/// Which picker a start is asked to open.
pub fn boot_picker(asked: Option<&str>) -> (kind: Option<PickerKind>)
    ensures
        kind == match asked {
            Some(name) => if name@ == "branch"@ {
                Some(PickerKind::Branch)
            } else if name@ == "checkout"@ {
                Some(PickerKind::Checkout)
            } else if name@ == "project"@ {
                Some(PickerKind::Space)
            } else if name@ == "device"@ {
                Some(PickerKind::Device)
            } else {
                None
            },
            None => None,
        },
{
    match asked {
        Some(name) => if same(name, "branch") {
            Some(PickerKind::Branch)
        } else if same(name, "checkout") {
            Some(PickerKind::Checkout)
        } else if same(name, "project") {
            Some(PickerKind::Space)
        } else if same(name, "device") {
            Some(PickerKind::Device)
        } else {
            None
        },
        None => None,
    }
}

/// The place of the first ref of a name.
pub open spec fn first_named(rows: Seq<RepoRef>, name: Seq<char>) -> Option<int>
    decreases rows.len(),
{
    if rows.len() == 0 {
        None
    } else if rows[0].name@ == name {
        Some(0int)
    } else {
        match first_named(rows.drop_first(), name) {
            Some(k) => Some(k + 1),
            None => None,
        }
    }
}

/// The place of the ref that is checked out.
pub open spec fn first_current(rows: Seq<RepoRef>) -> Option<int>
    decreases rows.len(),
{
    if rows.len() == 0 {
        None
    } else if rows[0].current {
        Some(0int)
    } else {
        match first_current(rows.drop_first()) {
            Some(k) => Some(k + 1),
            None => None,
        }
    }
}

/// The place of the ref of a name, or of the one that is checked out where no
/// name is given.
pub open spec fn ref_at(rows: Seq<RepoRef>, name: Option<Seq<char>>) -> Option<int> {
    match name {
        Some(name) => first_named(rows, name),
        None => first_current(rows),
    }
}

fn find_ref(rows: &Vec<RepoRef>, name: Option<&str>) -> (at: Option<usize>)
    ensures
        match at {
            Some(k) => k < rows@.len() && ref_at(
                rows@,
                match name {
                    Some(name) => Some(name@),
                    None => None,
                },
            ) == Some(k as int),
            None => ref_at(
                rows@,
                match name {
                    Some(name) => Some(name@),
                    None => None,
                },
            ) is None,
        },
{
    let ghost wanted = match name {
        Some(name) => Some(name@),
        None => None,
    };
    let mut k: usize = 0;
    assert(rows@.skip(0) =~= rows@);
    while k < rows.len()
        invariant
            k <= rows@.len(),
            wanted == (match name {
                Some(name) => Some(name@),
                None => None,
            }),
            ref_at(rows@, wanted) == match ref_at(rows@.skip(k as int), wanted) {
                Some(more) => Some(k + more),
                None => None,
            },
        decreases rows.len() - k,
    {
        assert(rows@.skip(k as int).drop_first() =~= rows@.skip(k + 1));
        let row = &rows[k];
        let found = match name {
            Some(name) => same(row.name.as_str(), name),
            None => row.current,
        };
        if found {
            return Some(k);
        }
        k += 1;
    }
    None
}

/// Which row of the refs is highlighted at first: that of the session's branch,
/// else of the picked one, else of the one that is checked out; the first,
/// where it is not there. It is one of the rows that are listed.
pub fn selected_ref_index(
    rows: &Vec<RepoRef>,
    session_branch: &Option<String>,
    picked: &Option<String>,
) -> (index: usize)
    ensures
        ({
            let name = if *session_branch is Some {
                optional(*session_branch)
            } else {
                optional(*picked)
            };
            let at = match ref_at(rows@, name) {
                Some(k) => k,
                None => 0,
            };
            index == if at < MAX_REF_ROWS {
                at
            } else {
                MAX_REF_ROWS - 1
            }
        }),
{
    let name: Option<&str> = match session_branch {
        Some(branch) => Some(branch.as_str()),
        None => match picked {
            Some(branch) => Some(branch.as_str()),
            None => None,
        },
    };
    let at: usize = match find_ref(rows, name) {
        Some(k) => k,
        None => 0,
    };
    if at < MAX_REF_ROWS {
        at
    } else {
        MAX_REF_ROWS - 1
    }
}

/// The state of the pickers.
#[derive(Debug)]
pub struct Pickers {
    pub config: DraftConfig,
    /// The session that the picks belong to.
    pub draft_owner: Option<String>,
    /// The space that the picked ref belongs to.
    pub space_owner: Option<String>,
    pub open: Option<PickerKind>,
    pub refs: Loadable<Vec<RepoRef>>,
    /// The space that the refs belong to.
    pub refs_space: Option<String>,
    /// The highlighted row.
    pub active: usize,
    /// Whether the next change of the search keeps the highlight.
    pub search_reset_muted: bool,
    /// The ref that is being checked out.
    pub switching: Option<String>,
    /// Why the last one was not.
    pub switch_error: Option<String>,
}

/// The row of the picked ref, else of the one that is checked out.
pub open spec fn chosen_ref(refs: Loadable<Vec<RepoRef>>, branch: Option<String>) -> Option<RepoRef> {
    match refs {
        Loadable::Ready(rows) => match ref_at(rows@, optional(branch)) {
            Some(k) => Some(rows@[k]),
            None => None,
        },
        _ => None,
    }
}

impl Pickers {
    /// The name of the picked ref, else of the one that is checked out.
    pub open spec fn ref_name(self) -> Option<Seq<char>> {
        match self.config.branch {
            Some(branch) => Some(branch@),
            None => match chosen_ref(self.refs, self.config.branch) {
                Some(row) => Some(row.name@),
                None => None,
            },
        }
    }

    /// The worktree that the picked ref has already.
    pub open spec fn ref_worktree(self) -> Option<Seq<char>> {
        match chosen_ref(self.refs, self.config.branch) {
            Some(row) => optional(row.worktree_path),
            None => None,
        }
    }

    /// Pickers for a session and a space.
    pub fn new(chat: Option<String>, space: Option<String>, open: Option<PickerKind>) -> (pickers: Self)
        ensures
            pickers.config.harness is None,
            pickers.config.model is None,
            pickers.config.reasoning is None,
            is_object(pickers.config.model_options),
            members(pickers.config.model_options) == no_members(),
            pickers.config.branch is None,
            pickers.config.checkout is Local,
            pickers.draft_owner == chat,
            pickers.space_owner == space,
            pickers.open == open,
            pickers.refs is Idle,
            pickers.refs_space is None,
            pickers.active == 0,
            !pickers.search_reset_muted,
            pickers.switching is None,
            pickers.switch_error is None,
    {
        Pickers {
            config: DraftConfig::default(),
            draft_owner: chat,
            space_owner: space,
            open,
            refs: Loadable::Idle,
            refs_space: None,
            active: 0,
            search_reset_muted: false,
            switching: None,
            switch_error: None,
        }
    }

    /// Another session or space was selected. What was picked for the one
    /// before does not carry over.
    pub fn selection_changed(&mut self, chat: &Option<String>, space: &Option<String>)
        ensures
            optional(final(self).draft_owner) == optional(*chat),
            optional(final(self).space_owner) == optional(*space),
            optional(old(self).draft_owner) == optional(*chat) ==> {
                &&& final(self).config.harness == old(self).config.harness
                &&& final(self).config.model == old(self).config.model
                &&& final(self).config.reasoning == old(self).config.reasoning
                &&& final(self).config.model_options == old(self).config.model_options
                &&& final(self).switch_error == old(self).switch_error
            },
            optional(old(self).draft_owner) != optional(*chat) ==> {
                &&& final(self).config.harness is None
                &&& final(self).config.model is None
                &&& final(self).config.reasoning is None
                &&& is_object(final(self).config.model_options)
                &&& members(final(self).config.model_options) == no_members()
                &&& final(self).switch_error is None
            },
            optional(old(self).space_owner) == optional(*space) ==> {
                &&& final(self).config.branch == old(self).config.branch
                &&& final(self).config.checkout == old(self).config.checkout
                &&& final(self).refs == old(self).refs
                &&& final(self).refs_space == old(self).refs_space
            },
            optional(old(self).space_owner) != optional(*space) ==> {
                &&& final(self).config.branch is None
                &&& final(self).config.checkout is Local
                &&& final(self).refs is Idle
                &&& final(self).refs_space is None
            },
            final(self).open == old(self).open,
            final(self).active == old(self).active,
            final(self).search_reset_muted == old(self).search_reset_muted,
            final(self).switching == old(self).switching,
    {
        if !same_options(chat, &self.draft_owner) {
            self.draft_owner = match chat {
                Some(chat) => Some(chat.clone()),
                None => None,
            };
            self.config.harness = None;
            self.config.model = None;
            self.config.reasoning = None;
            self.config.model_options = new_object();
            self.switch_error = None;
        }
        if !same_options(space, &self.space_owner) {
            self.space_owner = match space {
                Some(space) => Some(space.clone()),
                None => None,
            };
            self.config.branch = None;
            self.config.checkout = CheckoutKind::Local;
            self.refs = Loadable::Idle;
            self.refs_space = None;
        }
    }

    /// The search was changed: the highlight goes back to the top of the refs,
    /// unless the change was the picker's own.
    pub fn search_edited(&mut self)
        ensures
            *final(self) == (Pickers {
                search_reset_muted: false,
                active: if !old(self).search_reset_muted && old(self).open == Some(
                    PickerKind::Branch,
                ) {
                    0
                } else {
                    old(self).active
                },
                ..*old(self)
            }),
    {
        if self.search_reset_muted {
            self.search_reset_muted = false;
        } else if let Some(PickerKind::Branch) = self.open {
            self.active = 0;
        }
    }

    /// Closes what is open.
    pub fn close(&mut self)
        ensures
            *final(self) == (Pickers { open: None, ..*old(self) }),
    {
        self.open = None;
    }

    fn ready_refs(&self) -> (rows: Option<&Vec<RepoRef>>)
        ensures
            match rows {
                Some(rows) => self.refs is Ready && *rows == self.refs->Ready_0,
                None => !(self.refs is Ready),
            },
    {
        match &self.refs {
            Loadable::Ready(rows) => Some(rows),
            _ => None,
        }
    }

    fn selected_ref(&self) -> (row: Option<&RepoRef>)
        ensures
            row is Some == chosen_ref(self.refs, self.config.branch) is Some,
            row is Some ==> *row->0 == chosen_ref(self.refs, self.config.branch)->0,
    {
        match self.ready_refs() {
            Some(rows) => {
                let name: Option<&str> = match &self.config.branch {
                    Some(branch) => Some(branch.as_str()),
                    None => None,
                };
                match find_ref(rows, name) {
                    Some(k) => Some(&rows[k]),
                    None => None,
                }
            },
            None => None,
        }
    }

    /// The name of the picked ref, else of the one that is checked out.
    pub fn effective_ref_name(&self) -> (name: Option<String>)
        ensures
            optional(name) == self.ref_name(),
    {
        match &self.config.branch {
            Some(branch) => Some(branch.clone()),
            None => match self.selected_ref() {
                Some(row) => Some(row.name.clone()),
                None => None,
            },
        }
    }

    /// The worktree that the picked ref has already.
    pub fn selected_ref_worktree(&self) -> (path: Option<String>)
        ensures
            optional(path) == self.ref_worktree(),
    {
        match self.selected_ref() {
            Some(row) => match &row.worktree_path {
                Some(path) => Some(path.clone()),
                None => None,
            },
            None => None,
        }
    }

    /// What is done about the checkout when the first message is sent.
    pub fn checkout_plan(&self) -> (plan: CheckoutPlan)
        ensures
            match (self.config.checkout, self.ref_worktree()) {
                (CheckoutKind::NewWorktree, _) => plan is NewWorktree && optional(plan->base)
                    == self.ref_name(),
                (CheckoutKind::Local, Some(worktree)) => plan is ReuseWorktree && plan->path@
                    == worktree && plan->ReuseWorktree_branch@ == (match self.ref_name() {
                    Some(name) => name,
                    None => Seq::empty(),
                }),
                (CheckoutKind::Local, None) => plan is CurrentCheckout && optional(
                    plan->CurrentCheckout_branch,
                ) == self.ref_name(),
            },
    {
        match self.config.checkout {
            CheckoutKind::NewWorktree => CheckoutPlan::NewWorktree {
                base: self.effective_ref_name(),
            },
            CheckoutKind::Local => match self.selected_ref_worktree() {
                Some(path) => CheckoutPlan::ReuseWorktree {
                    path,
                    branch: match self.effective_ref_name() {
                        Some(name) => name,
                        None => String::new(),
                    },
                },
                None => CheckoutPlan::CurrentCheckout { branch: self.effective_ref_name() },
            },
        }
    }

    /// What the checkout's chip says.
    pub fn checkout_label(&self) -> (label: &'static str)
        ensures
            label@ == match (self.config.checkout, self.ref_worktree()) {
                (CheckoutKind::NewWorktree, _) => "New worktree"@,
                (CheckoutKind::Local, Some(_)) => "Current worktree"@,
                (CheckoutKind::Local, None) => "Current checkout"@,
            },
    {
        match self.config.checkout {
            CheckoutKind::NewWorktree => "New worktree",
            CheckoutKind::Local => if self.selected_ref_worktree().is_some() {
                "Current worktree"
            } else {
                "Current checkout"
            },
        }
    }

    /// What the ref's chip says.
    pub fn ref_label(&self) -> (label: String)
        ensures
            label@ == match (self.config.checkout, self.ref_name()) {
                (_, None) => "Select ref"@,
                (CheckoutKind::NewWorktree, Some(name)) => "From "@ + name,
                (CheckoutKind::Local, Some(name)) => name,
            },
    {
        match (self.config.checkout, self.effective_ref_name()) {
            (_, None) => "Select ref".to_owned(),
            (CheckoutKind::NewWorktree, Some(name)) => concat("From ", name.as_str()),
            (CheckoutKind::Local, Some(name)) => name,
        }
    }

    /// Picks a checkout. Going back to the space's own folder drops a ref that
    /// is neither checked out nor has a worktree.
    pub fn pick_checkout(&mut self, kind: CheckoutKind)
        ensures
            final(self).config.checkout == kind,
            final(self).config.branch == (if kind is Local && old(self).config.checkout
                is NewWorktree && old(self).ref_worktree() is None && chosen_ref(
                old(self).refs,
                old(self).config.branch,
            ) is Some && !chosen_ref(old(self).refs, old(self).config.branch)->0.current {
                None
            } else {
                old(self).config.branch
            }),
            *final(self) == (Pickers {
                open: None,
                config: DraftConfig {
                    branch: final(self).config.branch,
                    checkout: kind,
                    ..old(self).config
                },
                ..*old(self)
            }),
    {
        let drop_pick = match (kind, self.config.checkout) {
            (CheckoutKind::Local, CheckoutKind::NewWorktree) => match self.selected_ref() {
                Some(row) => row.worktree_path.is_none() && !row.current,
                None => false,
            },
            _ => false,
        };
        if drop_pick {
            self.config.branch = None;
        }
        self.config.checkout = kind;
        self.open = None;
    }

    /// Picks a ref. Gives whether the space's folder has to be put on it first;
    /// a session that exists never moves.
    pub fn pick_ref(&mut self, row: &RepoRef, session: bool) -> (switch: bool)
        ensures
            switch == (!session && row.worktree_path is None && !row.current && !(
            old(self).config.checkout is NewWorktree)),
            session || switch ==> *final(self) == *old(self),
            !session && !switch ==> {
                &&& optional(final(self).config.branch) == Some(row.name@)
                &&& final(self).config.checkout == (if row.worktree_path is Some {
                    CheckoutKind::Local
                } else {
                    old(self).config.checkout
                })
                &&& *final(self) == (Pickers {
                    open: None,
                    config: DraftConfig {
                        branch: final(self).config.branch,
                        checkout: final(self).config.checkout,
                        ..old(self).config
                    },
                    ..*old(self)
                })
            },
    {
        if session {
            return false;
        }
        if row.worktree_path.is_some() {
            self.config.branch = Some(row.name.clone());
            self.config.checkout = CheckoutKind::Local;
        } else {
            let base = match self.config.checkout {
                CheckoutKind::NewWorktree => true,
                CheckoutKind::Local => row.current,
            };
            if !base {
                return true;
            }
            self.config.branch = Some(row.name.clone());
        }
        self.open = None;
        false
    }
}

/// What a call about a space's folder hands over: the path, and the device
/// where that is another one.
pub open spec fn folder_members(space: Space, local_device: Option<Seq<char>>) -> Map<
    Seq<char>,
    Member,
> {
    let path = no_members().insert("repoPath"@, Member::Text(space.path@));
    if local_device == Some(space.device_id@) {
        path
    } else {
        path.insert("targetDeviceId"@, Member::Text(space.device_id@))
    }
}

fn folder_params(space: &Space, local_device: &Option<String>) -> (params: serde_json::Value)
    ensures
        is_object(params),
        members(params) == folder_members(*space, optional(*local_device)),
{
    let params = set_text(new_object(), "repoPath", space.path.as_str());
    if same_optional(local_device, space.device_id.as_str()) {
        params
    } else {
        set_text(params, "targetDeviceId", space.device_id.as_str())
    }
}

/// What opening a picker asks for.
#[derive(Debug, Clone, Copy)]
pub struct Opened {
    /// What the search says while it is empty.
    pub placeholder: &'static str,
    /// Whether the keys go to the search.
    pub search: bool,
    /// Whether the refs are asked for again.
    pub refs: bool,
}

/// What a picker's search says while it is empty.
pub open spec fn placeholder_of(kind: PickerKind) -> Seq<char> {
    match kind {
        PickerKind::Branch => "Search refs…"@,
        PickerKind::Checkout => "Search…"@,
        PickerKind::Space => "Search agents…"@,
        PickerKind::Device => "Search devices…"@,
    }
}

impl Pickers {
    /// Whether the refs of a space are to be asked for.
    pub open spec fn wants_refs(self, space: Option<&Space>, force: bool, engine: bool) -> bool {
        match space {
            None => false,
            Some(space) => {
                let fresh = optional(self.refs_space) == Some(space.id@);
                &&& space.git_detected
                &&& !(fresh && self.refs is Loading)
                &&& force || !fresh || self.refs is Idle
                &&& engine
            },
        }
    }

    /// Asks for the refs of a space, where it has any and they are not there
    /// yet; or in any case, where `force` says so. Refs that are there stay
    /// until others come.
    pub fn ensure_refs(
        &mut self,
        space: Option<&Space>,
        force: bool,
        engine: bool,
        local_device: &Option<String>,
    ) -> (params: Option<serde_json::Value>)
        ensures
            params is Some == old(self).wants_refs(space, force, engine),
            params is None ==> *final(self) == *old(self),
            params is Some ==> {
                let fresh = optional(old(self).refs_space) == Some(space->0.id@);
                &&& is_object(params->0)
                &&& members(params->0) == folder_members(*space->0, optional(*local_device))
                &&& optional(final(self).refs_space) == Some(space->0.id@)
                &&& final(self).refs == (if force && fresh && old(self).refs is Ready {
                    old(self).refs
                } else {
                    Loadable::Loading
                })
                &&& *final(self) == (Pickers {
                    refs: final(self).refs,
                    refs_space: final(self).refs_space,
                    ..*old(self)
                })
            },
    {
        let space = match space {
            Some(space) => space,
            None => {
                return None;
            },
        };
        if !space.git_detected {
            return None;
        }
        let fresh = same_optional(&self.refs_space, space.id.as_str());
        let (idle, loading, ready) = match &self.refs {
            Loadable::Idle => (true, false, false),
            Loadable::Loading => (false, true, false),
            Loadable::Ready(_) => (false, false, true),
            Loadable::Error(_) => (false, false, false),
        };
        if fresh && loading {
            return None;
        }
        if !force && fresh && !idle {
            return None;
        }
        if !engine {
            return None;
        }
        if !(force && fresh && ready) {
            self.refs = Loadable::Loading;
        }
        self.refs_space = Some(space.id.clone());
        Some(folder_params(space, local_device))
    }

    /// Takes the refs, or why they did not come. While they are listed and
    /// nothing is searched for, the selected one is highlighted.
    pub fn refs_loaded(
        &mut self,
        refs: Result<Vec<RepoRef>, String>,
        searching: bool,
        session_branch: &Option<String>,
    )
        ensures
            match refs {
                Ok(rows) => final(self).refs == Loadable::Ready(rows),
                Err(error) => final(self).refs == Loadable::<Vec<RepoRef>>::Error(error),
            },
            final(self).active == (if old(self).open == Some(PickerKind::Branch) && !searching {
                let name = if *session_branch is Some {
                    optional(*session_branch)
                } else {
                    optional(old(self).config.branch)
                };
                let at = match refs {
                    Ok(rows) => match ref_at(rows@, name) {
                        Some(k) => k,
                        None => 0,
                    },
                    Err(_) => 0,
                };
                if at < MAX_REF_ROWS {
                    at
                } else {
                    MAX_REF_ROWS - 1
                }
            } else {
                old(self).active as int
            }),
            *final(self) == (Pickers {
                refs: final(self).refs,
                active: final(self).active,
                ..*old(self)
            }),
    {
        let anchored = match self.open {
            Some(PickerKind::Branch) => !searching,
            _ => false,
        };
        match refs {
            Ok(rows) => {
                if anchored {
                    self.active = selected_ref_index(&rows, session_branch, &self.config.branch);
                }
                self.refs = Loadable::Ready(rows);
            },
            Err(error) => {
                if anchored {
                    self.active = 0;
                }
                self.refs = Loadable::Error(error);
            },
        }
    }

    /// Puts the space's folder on a ref, one at a time.
    pub fn switch_draft_ref(
        &mut self,
        name: &str,
        space: Option<&Space>,
        engine: bool,
        local_device: &Option<String>,
    ) -> (params: Option<serde_json::Value>)
        ensures
            params is Some == (old(self).switching is None && space is Some && engine),
            params is None ==> *final(self) == *old(self),
            params is Some ==> {
                &&& is_object(params->0)
                &&& members(params->0) == folder_members(
                    *space->0,
                    optional(*local_device),
                ).insert("refName"@, Member::Text(name@))
                &&& optional(final(self).switching) == Some(name@)
                &&& *final(self) == (Pickers {
                    switch_error: None,
                    switching: final(self).switching,
                    ..*old(self)
                })
            },
    {
        if self.switching.is_some() || !engine {
            return None;
        }
        let space = match space {
            Some(space) => space,
            None => {
                return None;
            },
        };
        self.switch_error = None;
        self.switching = Some(name.to_owned());
        Some(set_text(folder_params(space, local_device), "refName", name))
    }

    /// The folder is on the ref, or git says why not. Gives whether the refs
    /// are to be asked for again.
    pub fn switch_finished(&mut self, name: String, switched: Result<(), String>) -> (refresh: bool)
        ensures
            refresh == switched is Ok,
            *final(self) == match switched {
                Ok(()) => Pickers {
                    switching: None,
                    open: None,
                    config: DraftConfig { branch: Some(name), ..old(self).config },
                    ..*old(self)
                },
                Err(error) => Pickers { switching: None, switch_error: Some(error), ..*old(self) },
            },
    {
        self.switching = None;
        match switched {
            Ok(()) => {
                self.config.branch = Some(name);
                self.open = None;
                true
            },
            Err(error) => {
                self.switch_error = Some(error);
                false
            },
        }
    }

    /// Opens a picker, or closes it where it is open or was when its chip was
    /// pressed. `selected` is the row of what is selected in it.
    pub fn toggle(&mut self, kind: PickerKind, pressed_open: bool, searching: bool, selected: usize)
        -> (opened: Option<Opened>)
        ensures
            opened is None == (old(self).open == Some(kind) || pressed_open),
            opened is None ==> *final(self) == (Pickers { open: None, ..*old(self) }),
            opened is Some ==> {
                &&& opened->0.placeholder@ == placeholder_of(kind)
                &&& opened->0.search == !(kind is Checkout)
                &&& opened->0.refs == (kind is Branch || kind is Checkout)
                &&& *final(self) == (Pickers {
                    open: Some(kind),
                    search_reset_muted: searching,
                    active: if kind is Checkout {
                        if old(self).config.checkout is Local {
                            0
                        } else {
                            1
                        }
                    } else {
                        selected
                    },
                    switch_error: if kind is Branch {
                        None
                    } else {
                        old(self).switch_error
                    },
                    ..*old(self)
                })
            },
    {
        let is_open = match self.open {
            Some(open) => open == kind,
            None => false,
        };
        if is_open || pressed_open {
            self.open = None;
            return None;
        }
        self.open = Some(kind);
        self.search_reset_muted = searching;
        self.active = match kind {
            PickerKind::Checkout => match self.config.checkout {
                CheckoutKind::Local => 0,
                CheckoutKind::NewWorktree => 1,
            },
            _ => selected,
        };
        Some(
            match kind {
                PickerKind::Branch => {
                    self.switch_error = None;
                    Opened { placeholder: "Search refs…", search: true, refs: true }
                },
                PickerKind::Checkout => Opened {
                    placeholder: "Search…",
                    search: false,
                    refs: true,
                },
                PickerKind::Space => Opened {
                    placeholder: "Search agents…",
                    search: true,
                    refs: false,
                },
                PickerKind::Device => Opened {
                    placeholder: "Search devices…",
                    search: true,
                    refs: false,
                },
            },
        )
    }

    /// How many rows the highlight walks through, of those that the search
    /// leaves.
    pub fn row_count(&self, refs: usize, spaces: usize, devices: usize) -> (count: usize)
        ensures
            count == match self.open {
                Some(PickerKind::Branch) => if refs < MAX_REF_ROWS {
                    refs
                } else {
                    MAX_REF_ROWS
                },
                Some(PickerKind::Checkout) => 2,
                Some(PickerKind::Space) => spaces,
                Some(PickerKind::Device) => devices,
                None => 0,
            },
    {
        match self.open {
            Some(PickerKind::Branch) => if refs < MAX_REF_ROWS {
                refs
            } else {
                MAX_REF_ROWS
            },
            Some(PickerKind::Checkout) => 2,
            Some(PickerKind::Space) => spaces,
            Some(PickerKind::Device) => devices,
            None => 0,
        }
    }

    /// The row that is picked when the search is submitted, of the `count`
    /// that it leaves.
    pub fn submitted_row(&self, count: usize) -> (row: Option<usize>)
        ensures
            row == match self.open {
                Some(PickerKind::Checkout) | None => None,
                Some(_) => if self.active < count {
                    Some(self.active)
                } else {
                    None
                },
            },
    {
        match self.open {
            Some(PickerKind::Checkout) | None => None,
            Some(_) => if self.active < count {
                Some(self.active)
            } else {
                None
            },
        }
    }

    /// A key goes to the open picker. `stepped` is where the highlight walks
    /// to, and `count` how many rows the search leaves. Gives the row that is
    /// picked, if one is; of the checkouts the first is the space's own folder.
    pub fn on_key_down(
        &mut self,
        key: PickerKey,
        search_focused: bool,
        stepped: Option<usize>,
        count: usize,
    ) -> (picked: Option<usize>)
        ensures
            match (old(self).open, key) {
                (None, _) => *final(self) == *old(self) && picked is None,
                (Some(_), PickerKey::Escape) => *final(self) == (Pickers {
                    open: None,
                    ..*old(self)
                }) && picked is None,
                (Some(_), PickerKey::Step) => *final(self) == (Pickers {
                    active: match stepped {
                        Some(row) => row,
                        None => 0,
                    },
                    ..*old(self)
                }) && picked is None,
                (Some(kind), PickerKey::Enter) => *final(self) == *old(self) && picked == (
                if search_focused {
                    None
                } else if kind is Checkout {
                    Some(
                        if old(self).active == 0 {
                            0usize
                        } else {
                            1
                        },
                    )
                } else if old(self).active < count {
                    Some(old(self).active)
                } else {
                    None
                }),
                (Some(_), PickerKey::Other) => *final(self) == *old(self) && picked is None,
            },
    {
        let kind = match self.open {
            Some(kind) => kind,
            None => {
                return None;
            },
        };
        match key {
            PickerKey::Escape => {
                self.open = None;
                None
            },
            PickerKey::Step => {
                self.active = match stepped {
                    Some(row) => row,
                    None => 0,
                };
                None
            },
            PickerKey::Enter => if search_focused {
                None
            } else {
                match kind {
                    PickerKind::Checkout => Some(
                        if self.active == 0 {
                            0
                        } else {
                            1
                        },
                    ),
                    _ => self.submitted_row(count),
                }
            },
            PickerKey::Other => None,
        }
    }
}

/// What a key does in a picker.
#[derive(Debug, Clone, Copy, PartialEq, Eq, Structural)]
pub enum PickerKey {
    Escape,
    /// Up or down.
    Step,
    Enter,
    Other,
}

/// The draft's own choice comes before the chat's, and that before the default.
pub proof fn law_the_draft_comes_before_the_chat(draft: DraftConfig, chat: ChatConfig)
    ensures
        draft.harness is Some ==> effective_harness(draft, Some(chat)) == draft.harness->0
            && effective_harness(draft, None) == draft.harness->0,
        draft.harness is None ==> effective_harness(draft, Some(chat)) == chat.harness,
        draft.harness is None ==> effective_harness(draft, None) is Copilot,
        draft.model is Some ==> effective_model(draft, Some(chat)) == draft.model->0@
            && effective_model(draft, None) == draft.model->0@,
        draft.model is None && chat.model is Some ==> effective_model(draft, Some(chat))
            == chat.model->0@,
        draft.model is None && chat.model is None ==> effective_model(draft, Some(chat))
            == "copilot"@,
        draft.model is None ==> effective_model(draft, None) == "copilot"@,
{
}

/// The ref that was picked is the first one of its name; where none was, it is
/// the first that is checked out.
pub proof fn law_a_ref_is_found_by_name_or_checkout(rows: Seq<RepoRef>, name: Seq<char>, i: int)
    requires
        0 <= i < rows.len(),
    ensures
        rows[i].name@ == name && (forall|j: int| 0 <= j < i ==> (#[trigger] rows[j]).name@ != name)
            ==> ref_at(rows, Some(name)) == Some(i),
        rows[i].current && (forall|j: int| 0 <= j < i ==> !(#[trigger] rows[j]).current) ==> ref_at(
            rows,
            None,
        ) == Some(i),
    decreases rows.len(),
{
    if i > 0 {
        let rest = rows.drop_first();
        assert(rest[i - 1] == rows[i]);
        law_a_ref_is_found_by_name_or_checkout(rest, name, i - 1);
        if forall|j: int| 0 <= j < i ==> (#[trigger] rows[j]).name@ != name {
            assert(rows[0].name@ != name);
            assert forall|j: int| 0 <= j < i - 1 implies (#[trigger] rest[j]).name@ != name by {
                assert(rest[j] == rows[j + 1]);
            }
        }
        if forall|j: int| 0 <= j < i ==> !(#[trigger] rows[j]).current {
            assert(!rows[0].current);
            assert forall|j: int| 0 <= j < i - 1 implies !(#[trigger] rest[j]).current by {
                assert(rest[j] == rows[j + 1]);
            }
        }
    }
}

/// No ref is found where none has the name, or none is checked out.
pub proof fn law_no_ref_is_made_up(rows: Seq<RepoRef>, name: Seq<char>)
    ensures
        (forall|j: int| 0 <= j < rows.len() ==> (#[trigger] rows[j]).name@ != name) ==> ref_at(
            rows,
            Some(name),
        ) is None,
        (forall|j: int| 0 <= j < rows.len() ==> !(#[trigger] rows[j]).current) ==> ref_at(
            rows,
            None,
        ) is None,
    decreases rows.len(),
{
    if rows.len() > 0 {
        let rest = rows.drop_first();
        law_no_ref_is_made_up(rest, name);
        if forall|j: int| 0 <= j < rows.len() ==> (#[trigger] rows[j]).name@ != name {
            assert(rows[0].name@ != name);
            assert forall|j: int| 0 <= j < rest.len() implies (#[trigger] rest[j]).name@ != name by {
                assert(rest[j] == rows[j + 1]);
            }
        }
        if forall|j: int| 0 <= j < rows.len() ==> !(#[trigger] rows[j]).current {
            assert(!rows[0].current);
            assert forall|j: int| 0 <= j < rest.len() implies !(#[trigger] rest[j]).current by {
                assert(rest[j] == rows[j + 1]);
            }
        }
    }
}

/// A ref goes by the name that was picked, known or not; without a pick it is
/// the one that is checked out. It has a worktree just where its row does.
pub proof fn law_a_pick_names_its_ref(pickers: Pickers)
    ensures
        pickers.config.branch is Some ==> pickers.ref_name() == Some(pickers.config.branch->0@),
        pickers.config.branch is None && pickers.refs is Ready && first_current(
            pickers.refs->Ready_0@,
        ) is Some ==> pickers.ref_name() == Some(
            pickers.refs->Ready_0@[first_current(pickers.refs->Ready_0@)->0].name@,
        ),
        pickers.config.branch is None && !(pickers.refs is Ready) ==> pickers.ref_name() is None,
        !(pickers.refs is Ready) ==> pickers.ref_worktree() is None,
        pickers.config.branch is Some && pickers.refs is Ready && first_named(
            pickers.refs->Ready_0@,
            pickers.config.branch->0@,
        ) is Some ==> pickers.ref_worktree() == optional(
            pickers.refs->Ready_0@[first_named(
                pickers.refs->Ready_0@,
                pickers.config.branch->0@,
            )->0].worktree_path,
        ),
{
}

/// A request for a folder names its path, and the device it is on where that is
/// another one.
pub proof fn law_another_device_is_named(space: Space, local_device: Option<Seq<char>>)
    ensures
        folder_members(space, local_device).dom().contains("repoPath"@),
        folder_members(space, local_device)["repoPath"@] == Member::Text(space.path@),
        folder_members(space, local_device).dom().contains("targetDeviceId"@) == (local_device
            != Some(space.device_id@)),
        local_device != Some(space.device_id@) ==> folder_members(
            space,
            local_device,
        )["targetDeviceId"@] == Member::Text(space.device_id@),
{
    reveal_strlit("repoPath");
    reveal_strlit("targetDeviceId");
    assert("repoPath"@.len() == 8 && "targetDeviceId"@.len() == 14);
}

/// Refs are asked for only of a space with a repository and while the engine
/// runs, and never twice at once; those that have come are asked for again only
/// where that is forced.
pub proof fn law_refs_are_not_asked_for_twice(pickers: Pickers, space: Space, force: bool, engine: bool)
    ensures
        !pickers.wants_refs(None, force, engine),
        pickers.wants_refs(Some(&space), force, engine) ==> engine && space.git_detected,
        optional(pickers.refs_space) == Some(space.id@) && pickers.refs is Loading
            ==> !pickers.wants_refs(Some(&space), force, engine),
        optional(pickers.refs_space) == Some(space.id@) && (pickers.refs is Ready
            || pickers.refs is Error) ==> pickers.wants_refs(Some(&space), force, engine) == (force
            && engine && space.git_detected),
        optional(pickers.refs_space) != Some(space.id@) && engine && space.git_detected
            ==> pickers.wants_refs(Some(&space), force, engine),
{
}

/// Each search asks for what it looks through.
pub proof fn law_a_search_asks_for_what_it_looks_through(kind: PickerKind)
    ensures
        kind is Branch ==> placeholder_of(kind) == "Search refs…"@,
        kind is Checkout ==> placeholder_of(kind) == "Search…"@,
        kind is Space ==> placeholder_of(kind) == "Search agents…"@,
        kind is Device ==> placeholder_of(kind) == "Search devices…"@,
{
}

} // verus!

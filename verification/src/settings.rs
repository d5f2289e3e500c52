//! What the app remembers between starts: its look, and the last targets of
//! the composer.

use vstd::prelude::*;

use crate::paths::join_path;
use crate::paths::joined_path;
use crate::text::same;
use crate::text::optional;

verus! {

/// What the app is started with.
#[derive(Debug, Clone)]
pub struct UiConfig {
    pub data_dir: String,
    pub api_base_url: String,
}

/// The name of the file of the look.
pub const UI_SETTINGS_FILE: &'static str = "ui-settings.json";

/// The name of the file of the composer's targets.
pub const COMPOSER_DEFAULTS_FILE: &'static str = "composer-defaults.json";

/// The look, each choice by the name that it is stored under.
#[derive(Debug, Clone, PartialEq, Eq)]
pub struct UiSettings {
    pub appearance: String,
    pub ui_font_family: String,
    pub ui_font_size: String,
    pub theme_selection: String,
    pub accent: String,
    pub surface: String,
}

/// Whether two looks are the same.
pub open spec fn alike(a: UiSettings, b: UiSettings) -> bool {
    &&& a.appearance@ == b.appearance@
    &&& a.ui_font_family@ == b.ui_font_family@
    &&& a.ui_font_size@ == b.ui_font_size@
    &&& a.theme_selection@ == b.theme_selection@
    &&& a.accent@ == b.accent@
    &&& a.surface@ == b.surface@
}

impl UiSettings {
    /// Where the look is stored.
    pub fn path(data_dir: &str) -> (path: String)
        ensures
            path@ == joined_path(data_dir@, UI_SETTINGS_FILE@),
    {
        join_path(data_dir, UI_SETTINGS_FILE)
    }

    fn is_alike(&self, other: &UiSettings) -> (same_look: bool)
        ensures
            same_look == alike(*self, *other),
    {
        same(self.appearance.as_str(), other.appearance.as_str()) && same(
            self.ui_font_family.as_str(),
            other.ui_font_family.as_str(),
        ) && same(self.ui_font_size.as_str(), other.ui_font_size.as_str()) && same(
            self.theme_selection.as_str(),
            other.theme_selection.as_str(),
        ) && same(self.accent.as_str(), other.accent.as_str()) && same(
            self.surface.as_str(),
            other.surface.as_str(),
        )
    }
}

/// The look as it stands, and where it is stored.
#[derive(Debug)]
pub struct SettingsStore {
    pub current: UiSettings,
    pub data_dir: String,
}

impl SettingsStore {
    /// Takes a changed look. Gives whether it is to be stored: one that is as
    /// before is not.
    pub fn update(&mut self, changed: UiSettings) -> (store: bool)
        ensures
            store == !alike(old(self).current, changed),
            final(self).current == changed,
            final(self).data_dir == old(self).data_dir,
    {
        let store = !self.current.is_alike(&changed);
        self.current = changed;
        store
    }
}

/// What came of reading a stored value.
#[derive(Debug)]
pub enum Stored<T> {
    /// The value, if the file could be understood.
    Contents(Option<T>),
    Missing,
    Unreadable,
}

/// The stored value, or the default where there is none to be had.
pub open spec fn value_or<T>(stored: Stored<T>, default: T) -> T {
    match stored {
        Stored::Contents(Some(value)) => value,
        _ => default,
    }
}

/// The stored value, or the default where there is none to be had.
pub fn loaded<T>(stored: Stored<T>, default: T) -> (value: T)
    ensures
        value == value_or(stored, default),
{
    match stored {
        Stored::Contents(Some(value)) => value,
        _ => default,
    }
}

/// The last targets that a new session was given.
#[derive(Debug, PartialEq, Eq)]
pub struct ComposerDefaults {
    pub device: Option<String>,
    pub project: Option<String>,
    /// Whether it was given none.
    pub no_project: bool,
}

/// The last targets, as texts.
pub struct Targets {
    pub device: Option<Seq<char>>,
    pub project: Option<Seq<char>>,
    pub no_project: bool,
}

impl View for ComposerDefaults {
    type V = Targets;

    open spec fn view(&self) -> Targets {
        Targets {
            device: optional(self.device),
            project: optional(self.project),
            no_project: self.no_project,
        }
    }
}

/// The first of two values that is there.
pub open spec fn either(first: Option<Seq<char>>, second: Option<Seq<char>>) -> Option<Seq<char>> {
    if first is Some {
        first
    } else {
        second
    }
}

/// What is remembered of the canvas. Where no device was picked, this one
/// counts.
pub open spec fn remembered(
    device: Option<Seq<char>>,
    local_device: Option<Seq<char>>,
    project: Option<Seq<char>>,
    no_project: bool,
) -> Targets {
    Targets { device: either(device, local_device), project, no_project }
}

/// The device and the project that the canvas starts with: a target that it
/// has already stays.
pub open spec fn restored(
    targets: Targets,
    device: Option<Seq<char>>,
    project: Option<Seq<char>>,
) -> (Option<Seq<char>>, Option<Seq<char>>) {
    (either(device, targets.device), either(project, targets.project))
}

impl Default for ComposerDefaults {
    fn default() -> (none: Self)
        ensures
            none == (ComposerDefaults { device: None, project: None, no_project: false }),
    {
        ComposerDefaults { device: None, project: None, no_project: false }
    }
}

impl ComposerDefaults {
    /// Where the targets are stored.
    pub fn path(data_dir: &str) -> (path: String)
        ensures
            path@ == joined_path(data_dir@, COMPOSER_DEFAULTS_FILE@),
    {
        join_path(data_dir, COMPOSER_DEFAULTS_FILE)
    }

    /// The stored targets, or none where the file is missing or corrupt.
    pub fn load(stored: Stored<ComposerDefaults>) -> (defaults: Self)
        ensures
            defaults == value_or(
                stored,
                ComposerDefaults { device: None, project: None, no_project: false },
            ),
    {
        loaded(stored, ComposerDefaults { device: None, project: None, no_project: false })
    }

    /// Notes the targets of the canvas. Where no device was picked, this one
    /// counts.
    pub fn remember(
        &mut self,
        device: &Option<String>,
        local_device: &Option<String>,
        project: &Option<String>,
        no_project: bool,
    )
        ensures
            final(self)@ == remembered(
                optional(*device),
                optional(*local_device),
                optional(*project),
                no_project,
            ),
    {
        self.device = match device {
            Some(device) => Some(device.clone()),
            None => match local_device {
                Some(device) => Some(device.clone()),
                None => None,
            },
        };
        self.project = match project {
            Some(project) => Some(project.clone()),
            None => None,
        };
        self.no_project = no_project;
    }

    /// The targets that the canvas starts with: a target that it has already
    /// stays. That a session was given none is not restored.
    pub fn restore(&self, device: Option<String>, project: Option<String>) -> (targets: (
        Option<String>,
        Option<String>,
    ))
        ensures
            (optional(targets.0), optional(targets.1)) == restored(
                self@,
                optional(device),
                optional(project),
            ),
    {
        let device = match device {
            Some(device) => Some(device),
            None => match &self.device {
                Some(device) => Some(device.clone()),
                None => None,
            },
        };
        let project = match project {
            Some(project) => Some(project),
            None => match &self.project {
                Some(project) => Some(project.clone()),
                None => None,
            },
        };
        (device, project)
    }
}

/// How far the storing of the targets has come.
#[derive(Debug, Clone, Copy, PartialEq, Eq, Structural)]
pub enum Saving {
    /// The folder is being made.
    Folder,
    /// A file beside the stored one is being written.
    Writing,
    /// That file is taking the place of the stored one.
    Replacing,
    Saved,
    Failed,
}

/// What a step of the storing does to the files.
#[derive(Debug, Clone, Copy, PartialEq, Eq, Structural)]
pub enum SaveStep {
    MakeFolder,
    WriteBeside,
    Replace,
    Nothing,
}

/// What is done in a state.
pub open spec fn save_action(state: Saving) -> SaveStep {
    match state {
        Saving::Folder => SaveStep::MakeFolder,
        Saving::Writing => SaveStep::WriteBeside,
        Saving::Replacing => SaveStep::Replace,
        Saving::Saved | Saving::Failed => SaveStep::Nothing,
    }
}

/// The state after that is done, or has failed.
pub open spec fn save_next(state: Saving, done: bool) -> Saving {
    match state {
        Saving::Saved => Saving::Saved,
        Saving::Failed => Saving::Failed,
        _ => if !done {
            Saving::Failed
        } else {
            match state {
                Saving::Folder => Saving::Writing,
                Saving::Writing => Saving::Replacing,
                _ => Saving::Saved,
            }
        },
    }
}

/// What is to be done in a state.
pub fn save_step(state: Saving) -> (step: SaveStep)
    ensures
        step == save_action(state),
{
    match state {
        Saving::Folder => SaveStep::MakeFolder,
        Saving::Writing => SaveStep::WriteBeside,
        Saving::Replacing => SaveStep::Replace,
        Saving::Saved | Saving::Failed => SaveStep::Nothing,
    }
}

/// The state after that was done, or failed.
pub fn save_advance(state: Saving, done: bool) -> (next: Saving)
    ensures
        next == save_next(state, done),
{
    match state {
        Saving::Saved => Saving::Saved,
        Saving::Failed => Saving::Failed,
        Saving::Folder => if done {
            Saving::Writing
        } else {
            Saving::Failed
        },
        Saving::Writing => if done {
            Saving::Replacing
        } else {
            Saving::Failed
        },
        Saving::Replacing => if done {
            Saving::Saved
        } else {
            Saving::Failed
        },
    }
}

/// The state after a run of steps.
pub open spec fn save_run(state: Saving, outcomes: Seq<bool>) -> Saving
    decreases outcomes.len(),
{
    if outcomes.len() == 0 {
        state
    } else {
        save_next(save_run(state, outcomes.drop_last()), outcomes.last())
    }
}

/// What the stored file and the one beside it hold.
pub struct Files {
    pub stored: Option<Seq<char>>,
    pub beside: Option<Seq<char>>,
}

/// Whether doing a step, with `text` to be stored, may take the files from
/// `before` to `after`: a file may be written in part, and a rename is done or
/// not done.
pub open spec fn may_do(
    step: SaveStep,
    text: Seq<char>,
    before: Files,
    after: Files,
    done: bool,
) -> bool {
    match step {
        SaveStep::MakeFolder => after == before,
        SaveStep::WriteBeside => after.stored == before.stored && (done ==> after.beside == Some(
            text,
        )),
        SaveStep::Replace => if done {
            after == (Files { stored: before.beside, beside: None })
        } else {
            after == before
        },
        SaveStep::Nothing => after == before,
    }
}

/// Whether the storing of `text`, whose steps came out so, may have left the
/// files like this, before the first step and after each.
pub open spec fn may_leave(text: Seq<char>, outcomes: Seq<bool>, files: Seq<Files>) -> bool {
    &&& files.len() == outcomes.len() + 1
    &&& forall|i: int|
        0 <= i < outcomes.len() ==> may_do(
            save_action(save_run(Saving::Folder, outcomes.take(i))),
            text,
            files[i],
            files[i + 1],
            #[trigger] outcomes[i],
        )
}

/// The stored file holds what it held until the new text has been written in
/// full, and then that text; it never holds part of it. Storing is done only
/// with the text in place, and one that failed has changed nothing.
pub proof fn law_a_broken_save_leaves_the_stored_file(
    text: Seq<char>,
    outcomes: Seq<bool>,
    files: Seq<Files>,
)
    requires
        may_leave(text, outcomes, files),
    ensures
        ({
            let state = save_run(Saving::Folder, outcomes);
            let now = files.last();
            &&& state is Saved ==> now.stored == Some(text)
            &&& state !is Saved ==> now.stored == files[0].stored
            &&& state is Replacing ==> now.beside == Some(text)
        }),
    decreases outcomes.len(),
{
    if outcomes.len() > 0 {
        let earlier = outcomes.drop_last();
        let before = files.drop_last();
        assert forall|i: int| 0 <= i < earlier.len() implies may_do(
            save_action(save_run(Saving::Folder, earlier.take(i))),
            text,
            before[i],
            before[i + 1],
            #[trigger] earlier[i],
        ) by {
            assert(earlier.take(i) == outcomes.take(i));
            assert(earlier[i] == outcomes[i]);
        }
        law_a_broken_save_leaves_the_stored_file(text, earlier, before);
        let last = outcomes.len() - 1;
        assert(outcomes.take(last) == earlier);
        assert(outcomes[last] == outcomes.last());
    }
}

/// What came of reading a file, where `read` tells what a text stands for.
pub open spec fn reading<T>(file: Option<Seq<char>>, read: spec_fn(Seq<char>) -> Option<T>) -> Stored<
    T,
> {
    match file {
        Some(text) => Stored::Contents(read(text)),
        None => Stored::Missing,
    }
}

/// What was stored is what is loaded, for a value that is read back from the
/// text that it is written as; before anything was stored it is the default.
pub proof fn law_what_was_stored_is_loaded<T>(
    value: T,
    default: T,
    text: Seq<char>,
    read: spec_fn(Seq<char>) -> Option<T>,
    outcomes: Seq<bool>,
    files: Seq<Files>,
)
    requires
        read(text) == Some(value),
        may_leave(text, outcomes, files),
    ensures
        save_run(Saving::Folder, outcomes) is Saved ==> value_or(
            reading(files.last().stored, read),
            default,
        ) == value,
        save_run(Saving::Folder, outcomes) !is Saved ==> value_or(
            reading(files.last().stored, read),
            default,
        ) == value_or(reading(files[0].stored, read), default),
        value_or(reading(None, read), default) == default,
{
    law_a_broken_save_leaves_the_stored_file(text, outcomes, files);
}

/// What was remembered is what a fresh canvas starts with.
pub proof fn law_remembered_targets_are_restored(
    device: Option<Seq<char>>,
    local_device: Option<Seq<char>>,
    project: Option<Seq<char>>,
    no_project: bool,
)
    ensures
        restored(remembered(device, local_device, project, no_project), None, None) == (
            either(device, local_device),
            project,
        ),
{
}

/// Settings are stored again just where one of them has changed.
pub proof fn law_any_change_of_settings_counts(a: UiSettings, b: UiSettings)
    ensures
        alike(a, a),
        alike(a, b) == alike(b, a),
        a.appearance@ != b.appearance@ ==> !alike(a, b),
        a.ui_font_family@ != b.ui_font_family@ ==> !alike(a, b),
        a.ui_font_size@ != b.ui_font_size@ ==> !alike(a, b),
        a.theme_selection@ != b.theme_selection@ ==> !alike(a, b),
        a.accent@ != b.accent@ ==> !alike(a, b),
        a.surface@ != b.surface@ ==> !alike(a, b),
{
}

/// What was stored counts where it could be read, and the default elsewhere.
pub proof fn law_the_unreadable_is_replaced_by_the_default<T>(value: T, default: T)
    ensures
        value_or(Stored::Contents(Some(value)), default) == value,
        value_or(Stored::Contents(None), default) == default,
        value_or(Stored::Missing, default) == default,
        value_or(Stored::Unreadable, default) == default,
{
}

/// A save that meets no trouble makes the folder, writes beside the stored file
/// and replaces it, in this order; trouble ends it.
pub proof fn law_a_save_takes_its_steps_in_order(state: Saving)
    ensures
        save_run(Saving::Folder, seq![true, true, true]) is Saved,
        save_action(save_run(Saving::Folder, Seq::empty())) is MakeFolder,
        save_action(save_run(Saving::Folder, seq![true])) is WriteBeside,
        save_action(save_run(Saving::Folder, seq![true, true])) is Replace,
        !(state is Saved) ==> save_next(state, false) is Failed,
        state is Failed ==> save_next(state, true) is Failed,
        state is Saved || state is Failed ==> save_action(state) is Nothing,
{
    reveal_with_fuel(save_run, 4);
    assert(seq![true, true, true].drop_last() =~= seq![true, true]);
    assert(seq![true, true].drop_last() =~= seq![true]);
    assert(seq![true].drop_last() =~= Seq::<bool>::empty());
}

/// What the user has picked comes before what is remembered: the picked device
/// is remembered, else the one at hand, and a picked target is not replaced
/// when the remembered ones are restored.
pub proof fn law_a_pick_comes_before_the_memory(
    picked: Seq<char>,
    other: Option<Seq<char>>,
    project: Option<Seq<char>>,
    no_project: bool,
    targets: Targets,
)
    ensures
        remembered(Some(picked), other, project, no_project).device == Some(picked),
        remembered(None, other, project, no_project).device == other,
        remembered(Some(picked), other, project, no_project).project == project,
        remembered(Some(picked), other, project, no_project).no_project == no_project,
        restored(targets, Some(picked), project).0 == Some(picked),
        restored(targets, None, None) == (targets.device, targets.project),
        restored(targets, other, Some(picked)).1 == Some(picked),
{
}

} // verus!

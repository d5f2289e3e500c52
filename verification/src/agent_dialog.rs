//! The dialog that creates an agent from a template.

use vstd::prelude::*;

use crate::keiki::agent_id;
use crate::keiki::agent_space;
use crate::keiki::SessionStatus;
use crate::text::concat3;
use crate::text::join;
use crate::text::joined;
use crate::text::optional;
use crate::text::texts;
use crate::text::trim;
use crate::text::trimmed;

verus! {

/// A value that is fetched.
#[derive(Debug)]
pub enum Loadable<T> {
    Idle,
    Loading,
    Ready(T),
    Error(String),
}

/// A template that an agent can be made from.
#[derive(Debug)]
pub struct AgentTemplate {
    pub id: String,
    pub name: String,
    pub emoji: String,
    pub blurb: String,
}

/// What the service is asked to create.
#[derive(Debug)]
pub struct CreateAgent {
    pub template: String,
    pub name: Option<String>,
    pub line_number: Option<String>,
}

/// The dialog while it is open.
#[derive(Debug)]
pub struct AgentDialog {
    pub templates: Loadable<Vec<AgentTemplate>>,
    pub selected_template: Option<usize>,
    pub name: String,
    pub line_number: String,
    pub error: Option<String>,
    pub create_pending: bool,
}

/// What a submission does.
#[derive(Debug)]
pub enum Submission {
    Nothing,
    /// The dialog says why it cannot be submitted.
    Refused,
    Create(CreateAgent),
}

/// What the service answered.
#[derive(Debug)]
pub struct CreatedAgent {
    pub id: String,
    pub ok: bool,
    pub missing_secrets: Vec<String>,
}

/// What follows from the end of a creation.
#[derive(Debug)]
pub struct CreationEffects {
    pub select_space: Option<String>,
    pub notice: Option<String>,
}

/// A typed text without the white space around it, unless nothing is left.
pub open spec fn typed(text: Seq<char>) -> Option<Seq<char>> {
    if trimmed(text).len() > 0 {
        Some(trimmed(text))
    } else {
        None
    }
}

fn read_typed(text: &str) -> (value: Option<String>)
    ensures
        optional(value) == typed(text@),
{
    let core = trim(text);
    if core.is_empty() {
        None
    } else {
        Some(core.to_owned())
    }
}

impl AgentDialog {
    /// The template that is chosen, where it is known.
    pub open spec fn chosen(self) -> Option<AgentTemplate> {
        match (self.templates, self.selected_template) {
            (Loadable::Ready(templates), Some(index)) => if index < templates@.len() {
                Some(templates@[index as int])
            } else {
                None
            },
            _ => None,
        }
    }

    /// Opens the dialog, for an account that is signed in.
    pub fn open(status: SessionStatus) -> (dialog: Option<AgentDialog>)
        ensures
            dialog is Some == (status is SignedIn),
            dialog is Some ==> {
                &&& dialog->0.templates is Loading
                &&& dialog->0.selected_template is None
                &&& dialog->0.name@.len() == 0
                &&& dialog->0.line_number@.len() == 0
                &&& dialog->0.error is None
                &&& !dialog->0.create_pending
            },
    {
        match status {
            SessionStatus::SignedIn => Some(
                AgentDialog {
                    templates: Loadable::Loading,
                    selected_template: None,
                    name: String::new(),
                    line_number: String::new(),
                    error: None,
                    create_pending: false,
                },
            ),
            _ => None,
        }
    }

    /// Shows the templates that came, with the first of them chosen, or why
    /// none came.
    pub fn templates_loaded(&mut self, result: Result<Vec<AgentTemplate>, String>)
        ensures
            match result {
                Ok(templates) => if templates@.len() > 0 {
                    &&& final(self).name@ == templates@[0].name@
                    &&& *final(self) == (AgentDialog {
                        templates: Loadable::Ready(templates),
                        selected_template: Some(0),
                        name: final(self).name,
                        ..*old(self)
                    })
                } else {
                    *final(self) == (AgentDialog {
                        templates: Loadable::Ready(templates),
                        ..*old(self)
                    })
                },
                Err(words) => *final(self) == (AgentDialog {
                    templates: Loadable::Error(words),
                    ..*old(self)
                }),
            },
    {
        match result {
            Ok(templates) => {
                if templates.len() > 0 {
                    self.selected_template = Some(0);
                    self.name = templates[0].name.clone();
                }
                self.templates = Loadable::Ready(templates);
            },
            Err(words) => {
                self.templates = Loadable::Error(words);
            },
        }
    }

    /// Chooses the template in row `index`, whose name is offered as the
    /// agent's.
    pub fn select_template(&mut self, index: usize) -> (changed: bool)
        ensures
            changed == (old(self).templates is Ready && index < old(self).templates->Ready_0@.len()),
            !changed ==> *final(self) == *old(self),
            changed ==> {
                &&& final(self).name@ == old(self).templates->Ready_0@[index as int].name@
                &&& *final(self) == (AgentDialog {
                    selected_template: Some(index),
                    name: final(self).name,
                    error: None,
                    ..*old(self)
                })
            },
    {
        let name = match &self.templates {
            Loadable::Ready(templates) => {
                if index < templates.len() {
                    Some(templates[index].name.clone())
                } else {
                    None
                }
            },
            _ => None,
        };
        match name {
            Some(text) => {
                self.selected_template = Some(index);
                self.name = text;
                self.error = None;
                true
            },
            None => false,
        }
    }

    /// Whether the button that creates the agent acts.
    pub fn can_create(&self) -> (can: bool)
        ensures
            can == (!self.create_pending && self.chosen() is Some),
    {
        if self.create_pending {
            return false;
        }
        match (&self.templates, self.selected_template) {
            (Loadable::Ready(templates), Some(index)) => index < templates.len(),
            _ => false,
        }
    }

    /// Submits the dialog: once at a time, and not without a template.
    pub fn submit(&mut self) -> (submission: Submission)
        ensures
            old(self).create_pending ==> submission is Nothing && *final(self) == *old(self),
            !old(self).create_pending && old(self).selected_template is None ==> {
                &&& submission is Refused
                &&& optional(final(self).error) == Some("Select a template to continue."@)
                &&& *final(self) == (AgentDialog { error: final(self).error, ..*old(self) })
            },
            !old(self).create_pending && old(self).selected_template is Some && old(
                self,
            ).chosen() is None ==> submission is Nothing && *final(self) == *old(self),
            !old(self).create_pending && old(self).chosen() is Some ==> {
                &&& submission is Create
                &&& submission->Create_0.template@ == old(self).chosen()->0.id@
                &&& optional(submission->Create_0.name) == typed(old(self).name@)
                &&& optional(submission->Create_0.line_number) == typed(old(self).line_number@)
                &&& *final(self) == (AgentDialog {
                    create_pending: true,
                    error: None,
                    ..*old(self)
                })
            },
    {
        if self.create_pending {
            return Submission::Nothing;
        }
        let index = match self.selected_template {
            Some(index) => index,
            None => {
                self.error = Some("Select a template to continue.".to_owned());
                return Submission::Refused;
            },
        };
        let template = match &self.templates {
            Loadable::Ready(templates) => {
                if index < templates.len() {
                    Some(templates[index].id.clone())
                } else {
                    None
                }
            },
            _ => None,
        };
        match template {
            Some(id) => {
                let name = read_typed(self.name.as_str());
                let line_number = read_typed(self.line_number.as_str());
                self.create_pending = true;
                self.error = None;
                Submission::Create(CreateAgent { template: id, name, line_number })
            },
            None => Submission::Nothing,
        }
    }
}

/// What came of a creation: the service has to confirm it, and the rows have
/// to be fetched again.
pub fn creation_outcome(answer: Result<CreatedAgent, String>, refreshed: Result<(), String>) -> (outcome:
    Result<CreatedAgent, String>)
    ensures
        match answer {
            Ok(agent) => if !agent.ok {
                outcome is Err && outcome->Err_0@
                    == "Keiki did not confirm that the agent was created"@
            } else {
                match refreshed {
                    Ok(()) => outcome == Ok::<CreatedAgent, String>(agent),
                    Err(words) => outcome == Err::<CreatedAgent, String>(words),
                }
            },
            Err(words) => outcome == Err::<CreatedAgent, String>(words),
        },
{
    match answer {
        Ok(agent) => {
            if agent.ok {
                match refreshed {
                    Ok(()) => Ok(agent),
                    Err(words) => Err(words),
                }
            } else {
                Err("Keiki did not confirm that the agent was created".to_owned())
            }
        },
        Err(words) => Err(words),
    }
}

/// What the sidebar says of secrets that an agent still needs.
pub open spec fn secrets_notice(secrets: Seq<Seq<char>>) -> Seq<char> {
    "Agent created. Add these secrets on onkeiki.com before it can run: "@ + joined(
        secrets,
        ", "@,
    ) + "."@
}

/// Ends a creation: the dialog closes over the new agent's space, or stays
/// open and says what failed. A dialog that was closed meanwhile stays closed,
/// and nothing is selected.
pub fn creation_finished(dialog: &mut Option<AgentDialog>, outcome: Result<CreatedAgent, String>) -> (effects:
    CreationEffects)
    ensures
        *old(dialog) is None ==> {
            &&& *final(dialog) is None
            &&& effects.select_space is None
            &&& effects.notice is None
        },
        *old(dialog) is Some ==> match outcome {
            Ok(agent) => {
                &&& *final(dialog) is None
                &&& optional(effects.select_space) == Some(agent_space(agent.id@))
                &&& optional(effects.notice) == if agent.missing_secrets@.len() > 0 {
                    Some(secrets_notice(texts(agent.missing_secrets@)))
                } else {
                    None
                }
            },
            Err(words) => {
                &&& *final(dialog) == Some(
                    AgentDialog { create_pending: false, error: Some(words), ..old(dialog)->0 },
                )
                &&& effects.select_space is None
                &&& effects.notice is None
            },
        },
{
    if dialog.is_none() {
        return CreationEffects { select_space: None, notice: None };
    }
    match outcome {
        Ok(agent) => {
            *dialog = None;
            let notice = if agent.missing_secrets.len() > 0 {
                let secrets = join(&agent.missing_secrets, ", ");
                Some(
                    concat3(
                        "Agent created. Add these secrets on onkeiki.com before it can run: ",
                        secrets.as_str(),
                        ".",
                    ),
                )
            } else {
                None
            };
            CreationEffects { select_space: Some(agent_id(agent.id.as_str())), notice }
        },
        Err(words) => {
            if let Some(open) = dialog.as_mut() {
                open.create_pending = false;
                open.error = Some(words);
            }
            CreationEffects { select_space: None, notice: None }
        },
    }
}

/// A field counts without the white space around it, and not at all where it is
/// blank.
pub proof fn law_blank_fields_do_not_count(text: Seq<char>)
    ensures
        typed(text) is Some == (trimmed(text).len() > 0),
        typed(text) is Some ==> typed(text)->0 == trimmed(text),
{
}

/// A template is chosen just where the templates have come and the selection
/// names one of them.
pub proof fn law_the_chosen_template_is_the_selected_one(dialog: AgentDialog)
    ensures
        dialog.chosen() is Some == (dialog.templates is Ready && dialog.selected_template is Some
            && dialog.selected_template->0 < dialog.templates->Ready_0@.len()),
        dialog.chosen() is Some ==> dialog.chosen()->0
            == dialog.templates->Ready_0@[dialog.selected_template->0 as int],
{
}

/// The notice names every secret that is missing, with commas between them.
pub proof fn law_missing_secrets_are_named(first: Seq<char>, second: Seq<char>)
    ensures
        secrets_notice(seq![first])
            == "Agent created. Add these secrets on onkeiki.com before it can run: "@ + first
            + "."@,
        secrets_notice(seq![first, second])
            == "Agent created. Add these secrets on onkeiki.com before it can run: "@ + (first
            + ", "@ + second) + "."@,
{
    assert(seq![first, second].drop_last() =~= seq![first]);
    reveal_with_fuel(joined, 3);
}

} // verus!

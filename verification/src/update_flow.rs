//! The update that runs while the app waits: what the modal says, and what is
//! done next.

use vstd::prelude::*;

use crate::text::concat;
use crate::text::concat3;
use crate::text::decimal;
use crate::text::decimal_string;

verus! {

/// How long after the start the feed is asked, in milliseconds.
pub const CHECK_DELAY: u64 = 5000;

/// How long the modal's last state is shown, in milliseconds.
pub const RESTART_HOLD: u64 = 600;

/// How far the update has come. A failed one closes the modal.
#[derive(Debug, Clone, Copy, PartialEq, Eq, Structural)]
pub enum Phase {
    /// `total` is known once the answer reports a length.
    Downloading { received: u64, total: Option<u64> },
    Installing,
    Restarting,
}

/// What the modal shows.
#[derive(Debug)]
pub struct UpdateFlow {
    /// The version that is being installed, without its tag's leading `v`.
    pub version: String,
    pub phase: Phase,
}

/// The share that has come, as a numerator and a denominator, while the whole
/// is known and not nothing: never more than all of it.
pub open spec fn share(received: u64, total: Option<u64>) -> Option<(u64, u64)> {
    match total {
        Some(total) => if total == 0 {
            None
        } else if received < total {
            Some((received, total))
        } else {
            Some((total, total))
        },
        None => None,
    }
}

/// The share that has come, as a numerator and a denominator, while the whole
/// is known and not nothing.
pub fn progress(received: u64, total: Option<u64>) -> (part: Option<(u64, u64)>)
    ensures
        part == share(received, total),
        part is Some ==> (part->0).0 <= (part->0).1 && (part->0).1 > 0,
{
    match total {
        Some(total) => if total == 0 {
            None
        } else if received < total {
            Some((received, total))
        } else {
            Some((total, total))
        },
        None => None,
    }
}

impl UpdateFlow {
    /// The line under the title. `percent` is the share that has come, and
    /// `amount` how much that is.
    pub fn status(&self, percent: u32, amount: &str) -> (line: String)
        ensures
            line@ == match self.phase {
                Phase::Downloading { received, total } => if share(received, total) is Some {
                    "Downloading… "@ + decimal(percent as nat) + "%"@
                } else {
                    "Downloading… "@ + amount@
                },
                Phase::Installing => "Installing…"@,
                Phase::Restarting => "Restarting Comet…"@,
            },
    {
        match self.phase {
            Phase::Downloading { received, total } => {
                if progress(received, total).is_some() {
                    let number = decimal_string(percent as u64);
                    concat3("Downloading… ", number.as_str(), "%")
                } else {
                    concat("Downloading… ", amount)
                }
            },
            Phase::Installing => "Installing…".to_owned(),
            Phase::Restarting => "Restarting Comet…".to_owned(),
        }
    }

    /// What part of the bar is filled, as a numerator and a denominator: the
    /// share that has come, while that is known, and all of it afterwards.
    pub fn fill(&self) -> (part: (u64, u64))
        ensures
            part == match self.phase {
                Phase::Downloading { received, total } => match share(received, total) {
                    Some(part) => part,
                    None => (0u64, 1u64),
                },
                _ => (1u64, 1u64),
            },
    {
        match self.phase {
            Phase::Downloading { received, total } => match progress(received, total) {
                Some(part) => part,
                None => (0, 1),
            },
            _ => (1, 1),
        }
    }

    /// The title.
    pub fn title(&self) -> (title: String)
        ensures
            title@ == "Updating to "@ + self.version@,
    {
        concat("Updating to ", self.version.as_str())
    }
}

/// What happens to an update.
#[derive(Debug)]
pub enum UpdateEvent {
    /// The app has run for a while.
    Waited,
    /// The feed has answered: the newer version, if there is one.
    Checked(Option<String>),
    /// More has come.
    Received { received: u64, total: Option<u64> },
    /// All has come.
    Downloaded,
    /// The new build is in place.
    Installed,
    /// The last state has been shown for long enough.
    Held,
    /// Something went wrong.
    Failed,
}

/// What is done about it.
#[derive(Debug, Clone, Copy, PartialEq, Eq, Structural)]
pub enum UpdateAction {
    Check,
    Download,
    Install,
    Hold,
    /// Start the new build once the windows are closed, and close them.
    Relaunch,
    Nothing,
}

/// The modal, by what it shows.
pub open spec fn shows(flow: Option<UpdateFlow>, version: Seq<char>, phase: Phase) -> bool {
    flow is Some && flow->0.version@ == version && flow->0.phase == phase
}

/// Whether `after` is the modal `before` with another phase. A closed modal
/// stays closed.
pub open spec fn rephased(before: Option<UpdateFlow>, phase: Phase, after: Option<UpdateFlow>) -> bool {
    match before {
        Some(flow) => shows(after, flow.version@, phase),
        None => after is None,
    }
}

fn set_phase(flow: Option<UpdateFlow>, phase: Phase) -> (after: Option<UpdateFlow>)
    ensures
        rephased(flow, phase, after),
{
    match flow {
        Some(flow) => Some(UpdateFlow { version: flow.version, phase }),
        None => None,
    }
}

/// What an event does to the modal, and what is done about it.
pub fn update_step(flow: Option<UpdateFlow>, event: UpdateEvent) -> (step: (
    Option<UpdateFlow>,
    UpdateAction,
))
    ensures
        match event {
            UpdateEvent::Waited => step.0 == flow && step.1 is Check,
            UpdateEvent::Checked(None) => step.0 == flow && step.1 is Nothing,
            UpdateEvent::Checked(Some(version)) => shows(
                step.0,
                version@,
                Phase::Downloading { received: 0, total: None },
            ) && step.1 is Download,
            UpdateEvent::Received { received, total } => rephased(
                flow,
                Phase::Downloading { received, total },
                step.0,
            ) && step.1 is Nothing,
            UpdateEvent::Downloaded => rephased(flow, Phase::Installing, step.0)
                && step.1 is Install,
            UpdateEvent::Installed => rephased(flow, Phase::Restarting, step.0) && step.1 is Hold,
            UpdateEvent::Held => step.0 == flow && step.1 is Relaunch,
            UpdateEvent::Failed => step.0 is None && step.1 is Nothing,
        },
{
    match event {
        UpdateEvent::Waited => (flow, UpdateAction::Check),
        UpdateEvent::Checked(None) => (flow, UpdateAction::Nothing),
        UpdateEvent::Checked(Some(version)) => (
            Some(UpdateFlow { version, phase: Phase::Downloading { received: 0, total: None } }),
            UpdateAction::Download,
        ),
        UpdateEvent::Received { received, total } => (
            set_phase(flow, Phase::Downloading { received, total }),
            UpdateAction::Nothing,
        ),
        UpdateEvent::Downloaded => (set_phase(flow, Phase::Installing), UpdateAction::Install),
        UpdateEvent::Installed => (set_phase(flow, Phase::Restarting), UpdateAction::Hold),
        UpdateEvent::Held => (flow, UpdateAction::Relaunch),
        UpdateEvent::Failed => (None, UpdateAction::Nothing),
    }
}

/// The share that has come is what was received of what is expected, and the
/// whole of it once that much has come; nothing is said of it while the whole
/// is unknown or nothing.
pub proof fn law_the_share_is_what_has_come(received: u64, total: u64)
    ensures
        share(received, None) is None,
        share(received, Some(total)) is Some == (total > 0),
        total > 0 && received <= total ==> share(received, Some(total)) == Some((received, total)),
        total > 0 && received >= total ==> share(received, Some(total)) == Some((total, total)),
{
}

/// An open modal goes on with its version from phase to phase, and a closed
/// one is not opened again by what comes in late.
pub proof fn law_phases_keep_the_version(
    before: Option<UpdateFlow>,
    phase: Phase,
    after: Option<UpdateFlow>,
)
    requires
        rephased(before, phase, after),
    ensures
        after is Some == before is Some,
        after is Some ==> after->0.version@ == before->0.version@ && after->0.phase == phase,
{
}

} // verus!

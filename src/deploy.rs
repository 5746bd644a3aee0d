//! Bringing the deployment up after the overlay is written: first tear the
//! running deployment down, then build and start it again. Each step is one
//! orchestration command whose success decides the next step.

use vstd::prelude::*;
use vstd::string::StringExecFns;

verus! {

#[derive(Clone, Copy, Debug, PartialEq, Eq, Structural)]
pub enum DeployState {
    /// The teardown command is to run.
    TearingDown,
    /// The build-and-start command is to run.
    BringingUp,
    /// Both commands succeeded.
    Deployed,
    /// The teardown command failed; nothing more runs.
    TearDownFailed,
    /// The build-and-start command failed; nothing more runs.
    BringUpFailed,
}

/// The arguments of the orchestration program for the command of `s`, if one runs.
pub open spec fn command_of(s: DeployState) -> Option<Seq<Seq<char>>> {
    match s {
        DeployState::TearingDown => Some(seq!["compose"@, "down"@]),
        DeployState::BringingUp => Some(seq!["compose"@, "up"@, "--build"@, "-d"@]),
        _ => None,
    }
}

/// The state after the command of `s` ran and did or did not succeed.
pub open spec fn next_state(s: DeployState, succeeded: bool) -> DeployState {
    match s {
        DeployState::TearingDown => if succeeded { DeployState::BringingUp } else { DeployState::TearDownFailed },
        DeployState::BringingUp => if succeeded { DeployState::Deployed } else { DeployState::BringUpFailed },
        _ => s,
    }
}

impl DeployState {
    /// The first step: tear the running deployment down.
    pub fn start() -> (r: DeployState)
        ensures
            r == DeployState::TearingDown,
    {
        DeployState::TearingDown
    }

    /// Whether no command is left to run.
    pub fn is_finished(&self) -> (r: bool)
        ensures
            r == (command_of(*self) is None),
    {
        match self {
            DeployState::TearingDown | DeployState::BringingUp => false,
            _ => true,
        }
    }

    /// Whether the deployment was brought up.
    pub fn succeeded(&self) -> (r: bool)
        ensures
            r == (*self == DeployState::Deployed),
    {
        matches!(self, DeployState::Deployed)
    }

    /// The arguments of the orchestration program for this step's command;
    /// empty once finished.
    pub fn command(&self) -> (r: Vec<String>)
        ensures
            match command_of(*self) {
                Some(args) => r.deep_view() == args,
                None => r@.len() == 0,
            },
    {
        let mut r: Vec<String> = Vec::new();
        match self {
            DeployState::TearingDown => {
                r.push(String::from_str("compose"));
                r.push(String::from_str("down"));
            },
            DeployState::BringingUp => {
                r.push(String::from_str("compose"));
                r.push(String::from_str("up"));
                r.push(String::from_str("--build"));
                r.push(String::from_str("-d"));
            },
            _ => {},
        }
        assert(command_of(*self) matches Some(args) ==> r.deep_view() =~= args);
        r
    }

    /// The state after this step's command ran; a finished state stays as it is.
    pub fn after(&self, succeeded: bool) -> (r: DeployState)
        ensures
            r == next_state(*self, succeeded),
    {
        match self {
            DeployState::TearingDown => if succeeded { DeployState::BringingUp } else { DeployState::TearDownFailed },
            DeployState::BringingUp => if succeeded { DeployState::Deployed } else { DeployState::BringUpFailed },
            _ => *self,
        }
    }
}

} // verus!

//! The executor's decisions: what a command makes of its state, and what has
//! to be done for it.
//!
//! The executor itself, which waits for commands, looks devices up, starts
//! threads and stores the configuration, stands outside this library. It asks
//! here what to do, and does it.

use crate::command::{Command, SetDevice, SetRealtime, State};
use vstd::prelude::*;

verus! {

/// Which pipeline to start.
#[derive(Debug, Clone, Copy, PartialEq, Eq)]
pub enum Launch {
    /// None.
    Nothing,
    /// The pipeline that runs until it is superseded.
    Pipeline,
    /// The pipeline that takes new profiles while it runs.
    Realtime,
}

/// What has to be done after a command, in this order: store the
/// configuration, count the shared instance number up, start a pipeline, set
/// the shared enable flag, hand the state to the sender.
#[derive(Debug, Clone, Copy, PartialEq, Eq)]
pub struct Effects {
    /// Whether to store the configuration.
    pub save: bool,
    /// Whether to count the shared instance number up, which stops the
    /// pipeline that runs.
    pub supersede: bool,
    /// Which pipeline to start.
    pub launch: Launch,
    /// The value to set the shared enable flag to, if it is to be set.
    pub store_enabled: Option<bool>,
    /// The state to hand to the sender, if it asked for it.
    pub reply: Option<State>,
}

impl Effects {
    /// Nothing to do.
    pub open spec fn none() -> Effects {
        Effects {
            save: false,
            supersede: false,
            launch: Launch::Nothing,
            store_enabled: None,
            reply: None,
        }
    }
}

/// What the executor knows between two commands.
#[derive(Debug, Clone, Copy, PartialEq, Eq)]
pub struct Executor {
    pub state: State,
    /// Whether an input device is chosen and was found.
    pub has_input: bool,
    /// Whether an output device is chosen and was found.
    pub has_output: bool,
}

impl Executor {
    /// The pipeline that a start in the mode `wanted` starts: that one where a
    /// pipeline is meant to run and both devices are there, else none.
    pub open spec fn launch(self, wanted: Launch) -> Launch {
        if self.state.running && self.has_input && self.has_output {
            wanted
        } else {
            Launch::Nothing
        }
    }

    /// The executor at startup. With both devices it runs; without one of
    /// them it does not.
    pub open spec fn initial(has_input: bool, has_output: bool) -> Executor {
        Executor {
            state: State { running: has_input && has_output, ..State::initial() },
            has_input,
            has_output,
        }
    }

    /// The executor after the command `command`. `device_found` says, for a
    /// command that chooses a device, whether a device of that name is there.
    pub open spec fn after(self, command: Command, device_found: bool) -> Executor {
        match command {
            Command::SetState(new) => Executor {
                state: State { running: new.running, enabled: new.enabled, ..self.state },
                ..self
            },
            Command::SetDevice(SetDevice::Input, _) => Executor { has_input: device_found, ..self },
            Command::SetDevice(SetDevice::Output, _) => Executor {
                has_output: device_found,
                ..self
            },
            Command::SetRealtime(SetRealtime::Off) => Executor {
                state: State { realtime: false, ..self.state },
                ..self
            },
            Command::SetRealtime(SetRealtime::On(_)) => Executor {
                state: State { realtime: true, ..self.state },
                ..self
            },
            _ => self,
        }
    }

    /// What has to be done after the command `command`.
    ///
    /// - `SetState`: a change from stopped to running starts a pipeline, one
    ///   from running to stopped supersedes the pipeline that runs; a change of
    ///   the enable flag sets the shared flag.
    /// - `UpdateSettings`, `UpdateProfile`: store, supersede, start.
    /// - `Save`: store.
    /// - `GetState`: hand the state over.
    /// - `SetDevice`: store.
    /// - `SetRealtime`: switching off starts a pipeline if the equalizer is
    ///   enabled; switching on supersedes and starts a realtime pipeline.
    /// - `Restart`: supersede, start.
    ///
    /// A pipeline starts only where one is meant to run and both devices are
    /// there.
    pub open spec fn effects(self, command: Command, device_found: bool) -> Effects {
        let next = self.after(command, device_found);
        match command {
            Command::SetState(new) => Effects {
                supersede: self.state.running && !new.running,
                launch: if !self.state.running && new.running {
                    next.launch(Launch::Pipeline)
                } else {
                    Launch::Nothing
                },
                store_enabled: if self.state.enabled != new.enabled {
                    Some(new.enabled)
                } else {
                    None
                },
                ..Effects::none()
            },
            Command::UpdateSettings(_) => Effects {
                save: true,
                supersede: true,
                launch: next.launch(Launch::Pipeline),
                ..Effects::none()
            },
            Command::UpdateProfile(_) => Effects {
                save: true,
                supersede: true,
                launch: next.launch(Launch::Pipeline),
                ..Effects::none()
            },
            Command::Save(_, _) => Effects { save: true, ..Effects::none() },
            Command::GetState(_) => Effects { reply: Some(self.state), ..Effects::none() },
            Command::SetDevice(_, _) => Effects { save: true, ..Effects::none() },
            Command::SetRealtime(SetRealtime::Off) => Effects {
                launch: if self.state.enabled {
                    next.launch(Launch::Pipeline)
                } else {
                    Launch::Nothing
                },
                ..Effects::none()
            },
            Command::SetRealtime(SetRealtime::On(_)) => Effects {
                supersede: true,
                launch: next.launch(Launch::Realtime),
                ..Effects::none()
            },
            Command::Restart => Effects {
                supersede: true,
                launch: next.launch(Launch::Pipeline),
                ..Effects::none()
            },
        }
    }

    /// The executor at startup, and whether to start a pipeline at once.
    pub fn start(has_input: bool, has_output: bool) -> (r: (Executor, Launch))
        ensures
            r.0 == Executor::initial(has_input, has_output),
            r.1 == r.0.launch(Launch::Pipeline),
    {
        let running = has_input && has_output;
        let executor = Executor {
            state: State { enabled: true, running, realtime: false },
            has_input,
            has_output,
        };
        let launch = if running {
            Launch::Pipeline
        } else {
            Launch::Nothing
        };
        (executor, launch)
    }

    /// The pipeline to start for a start in the mode `wanted`.
    fn launch_of(&self, wanted: Launch) -> (r: Launch)
        ensures
            r == self.launch(wanted),
    {
        if self.state.running && self.has_input && self.has_output {
            wanted
        } else {
            Launch::Nothing
        }
    }

    /// Takes a command: updates the executor and says what has to be done.
    /// `device_found` says, for a command that chooses a device, whether a
    /// device of that name is there; for any other command it is not read.
    pub fn handle(&mut self, command: &Command, device_found: bool) -> (effects: Effects)
        ensures
            *final(self) == old(self).after(*command, device_found),
            effects == old(self).effects(*command, device_found),
    {
        let mut effects = Effects {
            save: false,
            supersede: false,
            launch: Launch::Nothing,
            store_enabled: None,
            reply: None,
        };
        match command {
            Command::SetState(new) => {
                if self.state.running != new.running {
                    self.state.running = new.running;
                    if self.state.running {
                        effects.launch = self.launch_of(Launch::Pipeline);
                    } else {
                        effects.supersede = true;
                    }
                }
                if self.state.enabled != new.enabled {
                    self.state.enabled = new.enabled;
                    effects.store_enabled = Some(new.enabled);
                }
            },
            Command::UpdateSettings(_) => {
                effects.save = true;
                effects.supersede = true;
                effects.launch = self.launch_of(Launch::Pipeline);
            },
            Command::UpdateProfile(_) => {
                effects.save = true;
                effects.supersede = true;
                effects.launch = self.launch_of(Launch::Pipeline);
            },
            Command::Save(_, _) => {
                effects.save = true;
            },
            Command::GetState(_) => {
                effects.reply = Some(self.state);
            },
            Command::SetDevice(which, _) => {
                match which {
                    SetDevice::Input => {
                        self.has_input = device_found;
                    },
                    SetDevice::Output => {
                        self.has_output = device_found;
                    },
                }
                effects.save = true;
            },
            Command::SetRealtime(SetRealtime::Off) => {
                self.state.realtime = false;
                if self.state.enabled {
                    effects.launch = self.launch_of(Launch::Pipeline);
                }
            },
            Command::SetRealtime(SetRealtime::On(_)) => {
                self.state.realtime = true;
                effects.supersede = true;
                effects.launch = self.launch_of(Launch::Realtime);
            },
            Command::Restart => {
                effects.supersede = true;
                effects.launch = self.launch_of(Launch::Pipeline);
            },
        }
        effects
    }
}

/// A pipeline starts only where one is meant to run and both devices are
/// there, and a realtime pipeline only in realtime mode.
pub proof fn lemma_launch_needs_devices(before: Executor, command: Command, device_found: bool)
    ensures
        !(before.effects(command, device_found).launch is Nothing) ==> {
            let after = before.after(command, device_found);
            after.state.running && after.has_input && after.has_output
        },
        before.effects(command, device_found).launch is Realtime ==> before.after(
            command,
            device_found,
        ).state.realtime,
{
}

/// Whatever replaces the settings or the profile of the pipeline that runs,
/// switches realtime mode on, restarts or stops the pipeline, counts the
/// shared instance number up: the pipeline that runs is superseded.
pub proof fn lemma_changes_supersede(before: Executor, command: Command, device_found: bool)
    requires
        command is UpdateSettings || command is UpdateProfile || command is Restart || (
        command matches Command::SetRealtime(switch) && switch is On) || (
        command matches Command::SetState(new) && before.state.running && !new.running),
    ensures
        before.effects(command, device_found).supersede,
{
}

} // verus!

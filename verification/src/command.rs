//! What the control side tells the executor, and what it asks of it.

use crate::eq::EqProfile;
use crate::settings::Settings;
use crate::utils::OneShot;
use std::sync::mpsc::Receiver;
use vstd::prelude::*;

verus! {

/// `std::sync::mpsc::Receiver`, as a type whose inside the verifier does not
/// see. The library hands such a value on and never reads from it.
#[verifier::external_type_specification]
#[verifier::external_body]
#[verifier::reject_recursive_types(T)]
pub struct ExReceiver<T>(Receiver<T>);

/// What the executor is doing.
#[derive(Clone, Copy, Debug, PartialEq, Eq)]
pub struct State {
    /// Whether the equalizer is applied.
    pub enabled: bool,
    /// Whether a pipeline is meant to run.
    pub running: bool,
    /// Whether changes of the profile go to the running pipeline at once.
    pub realtime: bool,
}

impl State {
    /// The state at startup: enabled, running, not in realtime mode.
    pub open spec fn initial() -> State {
        State { enabled: true, running: true, realtime: false }
    }
}

impl Default for State {
    fn default() -> (r: Self)
        ensures
            r == State::initial(),
    {
        Self { enabled: true, running: true, realtime: false }
    }
}

/// The devices that the control side can offer, and the two that are chosen.
pub struct Info {
    pub device_names: Vec<String>,
    pub input_dev: String,
    pub output_dev: String,
}

/// Which of the two devices a command sets.
#[derive(Debug, Clone, Copy, PartialEq, Eq)]
pub enum SetDevice {
    Input,
    Output,
}

/// Switches realtime mode off, or on with the source of the profiles to come.
#[derive(Debug)]
pub enum SetRealtime {
    Off,
    On(Receiver<EqProfile>),
}

/// A command to the executor.
#[derive(Debug)]
pub enum Command {
    /// Run or stop, and enable or disable the equalizer.
    SetState(State),
    /// Replace the settings.
    UpdateSettings(Settings),
    /// Replace the profile.
    UpdateProfile(EqProfile),
    /// Keep these settings and this profile in the stored configuration.
    Save(Settings, EqProfile),
    /// Hand the state to the sender of the command.
    GetState(OneShot<State>),
    /// Choose the input or the output device by its name.
    SetDevice(SetDevice, String),
    /// Switch realtime mode.
    SetRealtime(SetRealtime),
    /// Stop the pipeline that runs and start a new one.
    Restart,
}

} // verus!

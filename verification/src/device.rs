use vstd::prelude::*;

verus! {

/// A named device that can render a one-line status text about itself.
pub trait Device {
    /// The device's name.
    spec fn spec_name(&self) -> Seq<char>;

    /// The status text the device renders.
    spec fn spec_report(&self) -> Seq<char>;

    fn get_name(&self) -> (name: &str)
        ensures
            name@ == self.spec_name(),
    ;

    fn report(&self) -> (text: String)
        ensures
            text@ == self.spec_report(),
    ;
}

pub enum SmartSocketState {
    On,
    Off,
}

/// The text a socket state renders as: `On` or `Off`.
pub open spec fn state_text(state: SmartSocketState) -> Seq<char> {
    match state {
        SmartSocketState::On => "On"@,
        SmartSocketState::Off => "Off"@,
    }
}

pub struct SmartSocket {
    state: SmartSocketState,
    name: String,
}

impl SmartSocket {
    pub fn new(name: String, state: SmartSocketState) -> (socket: Self)
        ensures
            socket.spec_name() == name@,
            socket.spec_report() == "Socket: "@ + name@ + " and state is "@ + state_text(state),
    {
        SmartSocket { name, state }
    }
}

impl Device for SmartSocket {
    closed spec fn spec_name(&self) -> Seq<char> {
        self.name@
    }

    closed spec fn spec_report(&self) -> Seq<char> {
        "Socket: "@ + self.name@ + " and state is "@ + state_text(self.state)
    }

    fn get_name(&self) -> (name: &str) {
        self.name.as_str()
    }

    fn report(&self) -> (text: String) {
        let mut text = "Socket: ".to_owned();
        text.append(self.name.as_str());
        text.append(" and state is ");
        match self.state {
            SmartSocketState::On => text.append("On"),
            SmartSocketState::Off => text.append("Off"),
        }
        text
    }
}

pub struct SmartThermometer {
    name: String,
    temperature: String,
}

impl SmartThermometer {
    pub fn new(name: String, temperature: String) -> (thermometer: Self)
        ensures
            thermometer.spec_name() == name@,
            thermometer.spec_report() == "Thermometer: "@ + name@ + " and temperature is "@
                + temperature@,
    {
        SmartThermometer { name, temperature }
    }
}

impl Device for SmartThermometer {
    closed spec fn spec_name(&self) -> Seq<char> {
        self.name@
    }

    closed spec fn spec_report(&self) -> Seq<char> {
        "Thermometer: "@ + self.name@ + " and temperature is "@ + self.temperature@
    }

    fn get_name(&self) -> (name: &str) {
        self.name.as_str()
    }

    fn report(&self) -> (text: String) {
        let mut text = "Thermometer: ".to_owned();
        text.append(self.name.as_str());
        text.append(" and temperature is ");
        text.append(self.temperature.as_str());
        text
    }
}

} // verus!

//! The control protocol: which input characters are commands, and what
//! each input character does to the machine.

use vstd::prelude::*;
use crate::morse::code::Code;
use crate::morse::emitter::Signal;
use crate::morse::machine::{Machine, MachineState};

verus! {

/// The commands that a single input character can give.
#[derive(Clone, Copy, Debug, PartialEq, Eq, Structural)]
pub enum ControlSeq {
    /// Turn recording on or off.
    Enable,
    /// Switch to the other backend.
    Emitter,
    /// Turn continuous playback on or off.
    Mode,
    /// Play the whole tape once.
    Encode,
    /// Write the tape to the console.
    Print,
    /// Empty the tape.
    Clear,
    /// Stop continuous playback.
    Halt,
}

impl ControlSeq {
    pub const ENABLE: char = '#';

    pub const EMITTER: char = '[';

    pub const MODE: char = ']';

    pub const ENCODE: char = '>';

    pub const PRINT: char = '*';

    pub const CLEAR: char = '<';

    pub const HALT: char = '~';

    /// The command that `c` gives, if it gives one.
    pub open spec fn decode(c: char) -> Option<ControlSeq> {
        if c == ControlSeq::ENABLE {
            Some(ControlSeq::Enable)
        } else if c == ControlSeq::EMITTER {
            Some(ControlSeq::Emitter)
        } else if c == ControlSeq::MODE {
            Some(ControlSeq::Mode)
        } else if c == ControlSeq::ENCODE {
            Some(ControlSeq::Encode)
        } else if c == ControlSeq::PRINT {
            Some(ControlSeq::Print)
        } else if c == ControlSeq::CLEAR {
            Some(ControlSeq::Clear)
        } else if c == ControlSeq::HALT {
            Some(ControlSeq::Halt)
        } else {
            None
        }
    }

    /// The command that `c` gives, if it gives one.
    pub fn from_char(c: char) -> (r: Option<ControlSeq>)
        ensures
            r == ControlSeq::decode(c),
    {
        if c == ControlSeq::ENABLE {
            Some(ControlSeq::Enable)
        } else if c == ControlSeq::EMITTER {
            Some(ControlSeq::Emitter)
        } else if c == ControlSeq::MODE {
            Some(ControlSeq::Mode)
        } else if c == ControlSeq::ENCODE {
            Some(ControlSeq::Encode)
        } else if c == ControlSeq::PRINT {
            Some(ControlSeq::Print)
        } else if c == ControlSeq::CLEAR {
            Some(ControlSeq::Clear)
        } else if c == ControlSeq::HALT {
            Some(ControlSeq::Halt)
        } else {
            None
        }
    }

    /// No command character is encodable, so a command can never be taken
    /// for text, nor text for a command.
    pub proof fn lemma_commands_are_not_text(c: char)
        requires
            ControlSeq::decode(c) is Some,
        ensures
            !Code::encodable(c),
    {
    }
}

/// What a dispatcher is, as mathematics: the machine and the two switches
/// that the input stream flips.
pub struct DispatcherState {
    pub machine: MachineState,
    pub enable: bool,
    pub continuous: bool,
}

impl DispatcherState {
    /// A new dispatcher: a new machine, recording off, continuous playback
    /// off.
    pub open spec fn start() -> DispatcherState {
        DispatcherState { machine: MachineState::start(), enable: false, continuous: false }
    }

    pub open spec fn wf(self) -> bool {
        self.machine.wf()
    }

    /// What the input character `c` does. A command is carried out. Any
    /// other character, and the absence of one, is a tick: in continuous
    /// playback the machine plays one character; otherwise the character is
    /// offered to the tape if recording is on, and ignored if it is off.
    pub open spec fn dispatch(self, c: char) -> DispatcherState {
        match ControlSeq::decode(c) {
            Some(ControlSeq::Enable) => DispatcherState { enable: !self.enable, ..self },
            Some(ControlSeq::Emitter) => DispatcherState {
                machine: self.machine.switch_emitter(),
                ..self
            },
            Some(ControlSeq::Clear) => DispatcherState { machine: self.machine.reset(), ..self },
            Some(ControlSeq::Print) => DispatcherState {
                machine: self.machine.print_tape(),
                ..self
            },
            Some(ControlSeq::Encode) => DispatcherState {
                machine: self.machine.send_tape(),
                ..self
            },
            Some(ControlSeq::Mode) => DispatcherState { continuous: !self.continuous, ..self },
            Some(ControlSeq::Halt) => DispatcherState { continuous: false, ..self },
            None => if self.continuous {
                DispatcherState { machine: self.machine.emit_and_step(), ..self }
            } else if self.enable {
                DispatcherState { machine: self.machine.insert_checked(c), ..self }
            } else {
                self
            },
        }
    }

    /// The character that the outcome of a read stands for: the one with
    /// the code of the byte read, or the empty mark for no byte.
    pub open spec fn input_char(input: Option<u8>) -> char {
        match input {
            Some(byte) => byte as char,
            None => '\0',
        }
    }

    /// The dispatcher once its signals have been handed over.
    pub open spec fn taken(self) -> DispatcherState {
        DispatcherState { machine: self.machine.taken(), ..self }
    }

    /// Whatever the input, the dispatcher stays well formed.
    pub proof fn lemma_wf_kept(self, c: char)
        requires
            self.wf(),
        ensures
            DispatcherState::start().wf(),
            self.dispatch(c).wf(),
            self.taken().wf(),
    {
        self.machine.lemma_wf_kept(c);
    }

    /// Outside continuous playback, only encodable characters received
    /// while recording is on change the tape; everything else that is not a
    /// command leaves the whole dispatcher as it was.
    pub proof fn lemma_only_recorded_text_reaches_tape(self, c: char)
        requires
            !self.continuous,
            ControlSeq::decode(c) is None,
        ensures
            self.enable && Code::encodable(c) ==> self.dispatch(c).machine.tape
                == self.machine.tape.insert(c),
            !(self.enable && Code::encodable(c)) ==> self.dispatch(c) == self,
    {
    }
}

/// Routes the input stream, one character at a time, to the machine.
pub struct Dispatcher {
    machine: Machine,
    enable: bool,
    continuous: bool,
}

impl View for Dispatcher {
    type V = DispatcherState;

    closed spec fn view(&self) -> DispatcherState {
        DispatcherState {
            machine: self.machine@,
            enable: self.enable,
            continuous: self.continuous,
        }
    }
}

impl Dispatcher {
    /// A dispatcher around a new machine, with recording and continuous
    /// playback both off.
    pub fn new() -> (r: Dispatcher)
        ensures
            r@ == DispatcherState::start(),
            r@.wf(),
    {
        Dispatcher { machine: Machine::new(), enable: false, continuous: false }
    }

    /// Handles one input character. Where the input had nothing to offer,
    /// pass the empty mark `'\0'`: it is no command and is never recorded,
    /// so it only lets continuous playback go on.
    pub fn dispatch(&mut self, c: char)
        requires
            old(self)@.wf(),
        ensures
            final(self)@ == old(self)@.dispatch(c),
            final(self)@.wf(),
    {
        proof {
            old(self)@.lemma_wf_kept(c);
        }
        match ControlSeq::from_char(c) {
            Some(ControlSeq::Enable) => {
                self.enable = !self.enable;
            },
            Some(ControlSeq::Emitter) => {
                self.machine.switch_emitter();
            },
            Some(ControlSeq::Clear) => {
                self.machine.reset_tape();
            },
            Some(ControlSeq::Print) => {
                self.machine.print_tape();
            },
            Some(ControlSeq::Encode) => {
                self.machine.send_tape();
            },
            Some(ControlSeq::Mode) => {
                self.continuous = !self.continuous;
            },
            Some(ControlSeq::Halt) => {
                self.continuous = false;
            },
            None => {
                if self.continuous {
                    self.machine.emit_and_step();
                } else if self.enable {
                    self.machine.checked_insert_into_tape(c);
                }
            },
        }
    }

    /// Handles the outcome of one read of the input: the byte that was
    /// read, as the character with that code, or an idle tick where the
    /// input had nothing to offer.
    pub fn receive(&mut self, input: Option<u8>)
        requires
            old(self)@.wf(),
        ensures
            final(self)@ == old(self)@.dispatch(DispatcherState::input_char(input)),
            final(self)@.wf(),
    {
        let c: char = match input {
            Some(byte) => byte as char,
            None => '\0',
        };
        self.dispatch(c);
    }

    /// The machine.
    pub fn machine(&self) -> (r: &Machine)
        ensures
            r@ == self@.machine,
    {
        &self.machine
    }

    /// Whether recording is on.
    pub fn is_recording(&self) -> (r: bool)
        ensures
            r == self@.enable,
    {
        self.enable
    }

    /// Whether continuous playback is on.
    pub fn is_continuous(&self) -> (r: bool)
        ensures
            r == self@.continuous,
    {
        self.continuous
    }

    /// Hands over, oldest first, the signals issued since the last call.
    pub fn take_signals(&mut self) -> (r: Vec<Signal>)
        ensures
            r@ == old(self)@.machine.emitter.sent,
            final(self)@ == old(self)@.taken(),
    {
        self.machine.take_signals()
    }
}

} // verus!

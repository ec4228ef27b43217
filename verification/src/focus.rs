//! Finding the process behind the focused window, as a machine that asks the
//! display server one question at a time.
//!
//! The machine holds no connection. It hands out a [`FocusRequest`]; whoever
//! drives it performs the request and passes the matching [`FocusEvent`] to
//! [`FocusState::step`]. The first failure ends the attempt.

use crate::wire::{leading_text, single_value, PropertyReply, ReplyModel, Single};
use vstd::prelude::*;

verus! {

/// The window id that means "no window".
pub const WINDOW_NONE: u32 = 0;

/// Predefined atom of the type of 32-bit numbers.
pub const ATOM_CARDINAL: u32 = 6;

/// Predefined atom of the type of byte strings.
pub const ATOM_STRING: u32 = 31;

/// Predefined atom of the type of window ids.
pub const ATOM_WINDOW: u32 = 33;

/// Predefined atom of the class property.
pub const ATOM_WM_CLASS: u32 = 67;

/// Length asked of the class property, as the protocol counts it.
pub const CLASS_LENGTH: u32 = 64;

/// The state that a window manager records for a window.
#[derive(Clone, Copy, Debug, PartialEq, Eq, Structural)]
pub enum WindowState {
    Withdrawn,
    Normal,
    Iconic,
}

impl WindowState {
    /// The number that stands for the state on the wire.
    pub open spec fn code_of(self) -> u32 {
        match self {
            WindowState::Withdrawn => 0,
            WindowState::Normal => 1,
            WindowState::Iconic => 3,
        }
    }

    /// The number that stands for the state on the wire.
    #[verifier::when_used_as_spec(code_of)]
    pub fn code(self) -> (code: u32)
        ensures
            code == self.code_of(),
    {
        match self {
            WindowState::Withdrawn => 0,
            WindowState::Normal => 1,
            WindowState::Iconic => 3,
        }
    }
}

/// The properties that the resolver reads.
#[derive(Clone, Copy, Debug, PartialEq, Eq, Structural)]
pub enum Property {
    /// `_NET_ACTIVE_WINDOW`, on the root window.
    ActiveWindow,
    /// `_NET_WM_PID`, on the focused window.
    WmPid,
    /// `WM_STATE`, on the focused window.
    WmState,
    /// `WM_CLASS`, on the focused window.
    WmClass,
}

impl Property {
    /// The property's name, under which its atom is interned.
    pub fn name(self) -> (name: &'static str)
        ensures
            name@ == match self {
                Property::ActiveWindow => "_NET_ACTIVE_WINDOW"@,
                Property::WmPid => "_NET_WM_PID"@,
                Property::WmState => "WM_STATE"@,
                Property::WmClass => "WM_CLASS"@,
            },
    {
        match self {
            Property::ActiveWindow => "_NET_ACTIVE_WINDOW",
            Property::WmPid => "_NET_WM_PID",
            Property::WmState => "WM_STATE",
            Property::WmClass => "WM_CLASS",
        }
    }
}

/// What went wrong in the exchange about a property.
#[derive(Clone, Copy, Debug, PartialEq, Eq, Structural)]
pub enum Fault {
    /// The property's atom could not be interned.
    Atom,
    /// The request for the property was answered with an error.
    Request,
    /// The reply does not hold exactly one 32-bit item.
    Malformed,
    /// The reply's text is not UTF-8.
    Encoding,
}

/// Why no process was found for the focused window.
#[derive(Clone, Debug, PartialEq, Eq)]
pub enum FocusError {
    /// The display server cannot be reached.
    Connection,
    /// The connection has no usable screen.
    Configuration,
    /// A reply was missing, of the wrong size or undecodable.
    Protocol { property: Property, fault: Fault },
    /// No window is focused.
    NoFocus,
    /// The focused window is not in the normal, visible state.
    State { window: u32, state: u32 },
    /// The window names no process; finding one by the window's class is not
    /// provided.
    Unimplemented { class: String },
    /// The process table cannot be opened.
    ProcessTable,
}

pub enum FocusErrorModel {
    Connection,
    Configuration,
    Protocol { property: Property, fault: Fault },
    NoFocus,
    State { window: u32, state: u32 },
    Unimplemented { class: Seq<char> },
    ProcessTable,
}

impl View for FocusError {
    type V = FocusErrorModel;

    open spec fn view(&self) -> FocusErrorModel {
        match *self {
            FocusError::Connection => FocusErrorModel::Connection,
            FocusError::Configuration => FocusErrorModel::Configuration,
            FocusError::Protocol { property, fault } => FocusErrorModel::Protocol {
                property,
                fault,
            },
            FocusError::NoFocus => FocusErrorModel::NoFocus,
            FocusError::State { window, state } => FocusErrorModel::State { window, state },
            FocusError::Unimplemented { class } => FocusErrorModel::Unimplemented {
                class: class@,
            },
            FocusError::ProcessTable => FocusErrorModel::ProcessTable,
        }
    }
}

/// Something worth telling the user that does not end the attempt.
#[derive(Clone, Copy, Debug, PartialEq, Eq, Structural)]
pub enum FocusNote {
    /// The window's state could not be read; it is taken to be visible.
    StateUnknown { window: u32 },
    /// The window names no process; its class is tried instead.
    PidMissing { window: u32 },
}

/// What the resolver wants done next.
#[derive(Clone, Copy, Debug, PartialEq, Eq, Structural)]
pub enum FocusRequest {
    /// Open a connection to the display server.
    Connect,
    /// Intern the atom of `property`, whether or not it exists yet.
    InternAtom { property: Property },
    /// Find the root window of the connection's default screen.
    SelectRoot,
    /// Read `long_length` units of the property `atom` of `window`, from its
    /// start and without deleting it, asking for the type `kind`.
    GetProperty { window: u32, atom: u32, kind: u32, long_length: u32 },
    /// Open the process table.
    OpenProcessTable,
    /// Pass a note to the user.
    Report { note: FocusNote },
}

/// The answer to a [`FocusRequest`].
#[derive(Clone, Debug, PartialEq, Eq)]
pub enum FocusEvent {
    /// Whether the connection stands.
    Connected(bool),
    /// The atom, unless interning failed.
    AtomInterned(Option<u32>),
    /// The root window, unless the screen is missing.
    RootSelected(Option<u32>),
    /// The reply, unless the request was answered with an error.
    PropertyRead(Option<PropertyReply>),
    /// Whether the process table is open.
    ProcessTableOpened(bool),
    Reported,
}

pub enum FocusEventModel {
    Connected(bool),
    AtomInterned(Option<u32>),
    RootSelected(Option<u32>),
    PropertyRead(Option<ReplyModel>),
    ProcessTableOpened(bool),
    Reported,
}

impl View for FocusEvent {
    type V = FocusEventModel;

    open spec fn view(&self) -> FocusEventModel {
        match *self {
            FocusEvent::Connected(ok) => FocusEventModel::Connected(ok),
            FocusEvent::AtomInterned(atom) => FocusEventModel::AtomInterned(atom),
            FocusEvent::RootSelected(root) => FocusEventModel::RootSelected(root),
            FocusEvent::PropertyRead(reply) => FocusEventModel::PropertyRead(
                match reply {
                    Some(reply) => Some(reply@),
                    None => None,
                },
            ),
            FocusEvent::ProcessTableOpened(ok) => FocusEventModel::ProcessTableOpened(ok),
            FocusEvent::Reported => FocusEventModel::Reported,
        }
    }
}

/// The atoms interned at the start of an attempt.
#[derive(Clone, Copy, Debug, PartialEq, Eq, Structural)]
pub struct Atoms {
    pub active_window: u32,
    pub pid: u32,
    pub state: u32,
}

/// Where an attempt stands: what has been learnt, and what is awaited.
#[derive(Clone, Copy, Debug, PartialEq, Eq, Structural)]
pub enum FocusState {
    Connecting,
    InterningActiveWindow,
    InterningPid { active_window: u32 },
    InterningState { active_window: u32, pid: u32 },
    SelectingRoot { atoms: Atoms },
    ReadingActiveWindow { atoms: Atoms, root: u32 },
    OpeningProcessTable { atoms: Atoms, window: u32 },
    ReadingState { atoms: Atoms, window: u32 },
    ReportingState { atoms: Atoms, window: u32 },
    ReadingPid { atoms: Atoms, window: u32 },
    ReportingPid { window: u32 },
    ReadingClass { window: u32 },
}

/// Where a step led.
#[derive(Debug, PartialEq, Eq)]
pub enum FocusProgress {
    /// The attempt goes on: perform the state's request and step again.
    Next(FocusState),
    /// The attempt is over: the process id, or why there is none.
    Done(Result<u32, FocusError>),
}

pub enum FocusProgressModel {
    Next(FocusState),
    Done(Result<u32, FocusErrorModel>),
}

impl View for FocusProgress {
    type V = FocusProgressModel;

    open spec fn view(&self) -> FocusProgressModel {
        match *self {
            FocusProgress::Next(state) => FocusProgressModel::Next(state),
            FocusProgress::Done(Ok(pid)) => FocusProgressModel::Done(Ok(pid)),
            FocusProgress::Done(Err(error)) => FocusProgressModel::Done(Err(error@)),
        }
    }
}

pub open spec fn failed(error: FocusErrorModel) -> FocusProgressModel {
    FocusProgressModel::Done(Err(error))
}

pub open spec fn broken(property: Property, fault: Fault) -> FocusProgressModel {
    failed(FocusErrorModel::Protocol { property, fault })
}

/// The request that an attempt in this state is waiting on.
pub open spec fn focus_request(state: FocusState) -> FocusRequest {
    match state {
        FocusState::Connecting => FocusRequest::Connect,
        FocusState::InterningActiveWindow => FocusRequest::InternAtom {
            property: Property::ActiveWindow,
        },
        FocusState::InterningPid { active_window } => FocusRequest::InternAtom {
            property: Property::WmPid,
        },
        FocusState::InterningState { active_window, pid } => FocusRequest::InternAtom {
            property: Property::WmState,
        },
        FocusState::SelectingRoot { atoms } => FocusRequest::SelectRoot,
        FocusState::ReadingActiveWindow { atoms, root } => FocusRequest::GetProperty {
            window: root,
            atom: atoms.active_window,
            kind: ATOM_WINDOW,
            long_length: 1,
        },
        FocusState::OpeningProcessTable { atoms, window } => FocusRequest::OpenProcessTable,
        FocusState::ReadingState { atoms, window } => FocusRequest::GetProperty {
            window,
            atom: atoms.state,
            kind: atoms.state,
            long_length: 1,
        },
        FocusState::ReportingState { atoms, window } => FocusRequest::Report {
            note: FocusNote::StateUnknown { window },
        },
        FocusState::ReadingPid { atoms, window } => FocusRequest::GetProperty {
            window,
            atom: atoms.pid,
            kind: ATOM_CARDINAL,
            long_length: 1,
        },
        FocusState::ReportingPid { window } => FocusRequest::Report {
            note: FocusNote::PidMissing { window },
        },
        FocusState::ReadingClass { window } => FocusRequest::GetProperty {
            window,
            atom: ATOM_WM_CLASS,
            kind: ATOM_STRING,
            long_length: CLASS_LENGTH,
        },
    }
}

/// What follows from the reply about the focused window, read on the root.
pub open spec fn after_active_window(atoms: Atoms, reply: Option<ReplyModel>)
    -> FocusProgressModel {
    match reply {
        None => broken(Property::ActiveWindow, Fault::Request),
        Some(reply) => match single_value(reply) {
            Single::Value(window) => if window == WINDOW_NONE {
                failed(FocusErrorModel::NoFocus)
            } else {
                FocusProgressModel::Next(FocusState::OpeningProcessTable { atoms, window })
            },
            _ => broken(Property::ActiveWindow, Fault::Malformed),
        },
    }
}

/// What follows from the reply about the window's state. A window without
/// the property is taken to be visible, after a note; one in any state but
/// the normal one ends the attempt.
pub open spec fn after_state(atoms: Atoms, window: u32, reply: Option<ReplyModel>)
    -> FocusProgressModel {
    match reply {
        None => FocusProgressModel::Next(FocusState::ReportingState { atoms, window }),
        Some(reply) => match single_value(reply) {
            Single::Absent => FocusProgressModel::Next(
                FocusState::ReportingState { atoms, window },
            ),
            Single::Malformed => broken(Property::WmState, Fault::Malformed),
            Single::Value(state) => if state == WindowState::Normal.code_of() {
                FocusProgressModel::Next(FocusState::ReadingPid { atoms, window })
            } else {
                failed(FocusErrorModel::State { window, state })
            },
        },
    }
}

/// What follows from the reply about the window's process.
pub open spec fn after_pid(window: u32, reply: Option<ReplyModel>) -> FocusProgressModel {
    match reply {
        None => broken(Property::WmPid, Fault::Request),
        Some(reply) => match single_value(reply) {
            Single::Absent => FocusProgressModel::Next(FocusState::ReportingPid { window }),
            Single::Malformed => broken(Property::WmPid, Fault::Malformed),
            Single::Value(pid) => FocusProgressModel::Done(Ok(pid)),
        },
    }
}

/// What follows from the reply about the window's class: never a process.
pub open spec fn after_class(reply: Option<ReplyModel>) -> FocusProgressModel {
    match reply {
        None => broken(Property::WmClass, Fault::Request),
        Some(reply) => match leading_text(reply.value) {
            Some(class) => failed(FocusErrorModel::Unimplemented { class }),
            None => broken(Property::WmClass, Fault::Encoding),
        },
    }
}

/// One step of an attempt. An event that does not answer the pending request
/// leaves the attempt where it was.
pub open spec fn focus_step(state: FocusState, event: FocusEventModel) -> FocusProgressModel {
    match (state, event) {
        (FocusState::Connecting, FocusEventModel::Connected(ok)) => if ok {
            FocusProgressModel::Next(FocusState::InterningActiveWindow)
        } else {
            failed(FocusErrorModel::Connection)
        },
        (FocusState::InterningActiveWindow, FocusEventModel::AtomInterned(atom)) => match atom {
            Some(active_window) => FocusProgressModel::Next(
                FocusState::InterningPid { active_window },
            ),
            None => broken(Property::ActiveWindow, Fault::Atom),
        },
        (FocusState::InterningPid { active_window }, FocusEventModel::AtomInterned(atom)) => {
            match atom {
                Some(pid) => FocusProgressModel::Next(
                    FocusState::InterningState { active_window, pid },
                ),
                None => broken(Property::WmPid, Fault::Atom),
            }
        },
        (
            FocusState::InterningState { active_window, pid },
            FocusEventModel::AtomInterned(atom),
        ) => match atom {
            Some(state) => FocusProgressModel::Next(
                FocusState::SelectingRoot { atoms: Atoms { active_window, pid, state } },
            ),
            None => broken(Property::WmState, Fault::Atom),
        },
        (FocusState::SelectingRoot { atoms }, FocusEventModel::RootSelected(root)) => match root {
            Some(root) => FocusProgressModel::Next(
                FocusState::ReadingActiveWindow { atoms, root },
            ),
            None => failed(FocusErrorModel::Configuration),
        },
        (FocusState::ReadingActiveWindow { atoms, root }, FocusEventModel::PropertyRead(reply)) => {
            after_active_window(atoms, reply)
        },
        (
            FocusState::OpeningProcessTable { atoms, window },
            FocusEventModel::ProcessTableOpened(ok),
        ) => if ok {
            FocusProgressModel::Next(FocusState::ReadingState { atoms, window })
        } else {
            failed(FocusErrorModel::ProcessTable)
        },
        (FocusState::ReadingState { atoms, window }, FocusEventModel::PropertyRead(reply)) => {
            after_state(atoms, window, reply)
        },
        (FocusState::ReportingState { atoms, window }, FocusEventModel::Reported) => {
            FocusProgressModel::Next(FocusState::ReadingPid { atoms, window })
        },
        (FocusState::ReadingPid { atoms, window }, FocusEventModel::PropertyRead(reply)) => {
            after_pid(window, reply)
        },
        (FocusState::ReportingPid { window }, FocusEventModel::Reported) => {
            FocusProgressModel::Next(FocusState::ReadingClass { window })
        },
        (FocusState::ReadingClass { window }, FocusEventModel::PropertyRead(reply)) => {
            after_class(reply)
        },
        _ => FocusProgressModel::Next(state),
    }
}

} // verus!

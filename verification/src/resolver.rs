//! The executable focus resolver: the step that takes the display server's
//! answer and decides what is asked next, and what holds of every attempt.

use crate::focus::{
    after_active_window, after_class, after_pid, after_state, broken, failed, focus_request,
    focus_step, Atoms, Fault, FocusError, FocusErrorModel, FocusEvent, FocusEventModel, FocusNote,
    FocusProgress, FocusProgressModel, FocusRequest, FocusState, Property, WindowState,
    ATOM_CARDINAL, ATOM_STRING, ATOM_WINDOW, ATOM_WM_CLASS, CLASS_LENGTH, WINDOW_NONE,
};
use crate::wire::{single_value, PropertyReply, ReplyModel, Single};
use vstd::prelude::*;

verus! {

fn fail(property: Property, fault: Fault) -> (p: FocusProgress)
    ensures
        p@ == broken(property, fault),
{
    FocusProgress::Done(Err(FocusError::Protocol { property, fault }))
}

fn on_active_window(atoms: Atoms, reply: Option<PropertyReply>) -> (p: FocusProgress)
    ensures
        p@ == after_active_window(
            atoms,
            match reply {
                Some(reply) => Some(reply@),
                None => None,
            },
        ),
{
    match reply {
        None => fail(Property::ActiveWindow, Fault::Request),
        Some(reply) => match reply.single() {
            Single::Value(window) => if window == WINDOW_NONE {
                FocusProgress::Done(Err(FocusError::NoFocus))
            } else {
                FocusProgress::Next(FocusState::OpeningProcessTable { atoms, window })
            },
            _ => fail(Property::ActiveWindow, Fault::Malformed),
        },
    }
}

fn on_state(atoms: Atoms, window: u32, reply: Option<PropertyReply>) -> (p: FocusProgress)
    ensures
        p@ == after_state(
            atoms,
            window,
            match reply {
                Some(reply) => Some(reply@),
                None => None,
            },
        ),
{
    match reply {
        None => FocusProgress::Next(FocusState::ReportingState { atoms, window }),
        Some(reply) => match reply.single() {
            Single::Absent => FocusProgress::Next(FocusState::ReportingState { atoms, window }),
            Single::Malformed => fail(Property::WmState, Fault::Malformed),
            Single::Value(state) => if state == WindowState::Normal.code() {
                FocusProgress::Next(FocusState::ReadingPid { atoms, window })
            } else {
                FocusProgress::Done(Err(FocusError::State { window, state }))
            },
        },
    }
}

fn on_pid(window: u32, reply: Option<PropertyReply>) -> (p: FocusProgress)
    ensures
        p@ == after_pid(
            window,
            match reply {
                Some(reply) => Some(reply@),
                None => None,
            },
        ),
{
    match reply {
        None => fail(Property::WmPid, Fault::Request),
        Some(reply) => match reply.single() {
            Single::Absent => FocusProgress::Next(FocusState::ReportingPid { window }),
            Single::Malformed => fail(Property::WmPid, Fault::Malformed),
            Single::Value(pid) => FocusProgress::Done(Ok(pid)),
        },
    }
}

fn on_class(reply: Option<PropertyReply>) -> (p: FocusProgress)
    ensures
        p@ == after_class(
            match reply {
                Some(reply) => Some(reply@),
                None => None,
            },
        ),
{
    match reply {
        None => fail(Property::WmClass, Fault::Request),
        Some(reply) => match reply.text() {
            Some(class) => FocusProgress::Done(Err(FocusError::Unimplemented { class })),
            None => fail(Property::WmClass, Fault::Encoding),
        },
    }
}

impl FocusState {
    /// The state of an attempt before anything was asked.
    pub fn new() -> (state: FocusState)
        ensures
            state == FocusState::Connecting,
    {
        FocusState::Connecting
    }

    /// What the attempt is waiting for.
    pub fn request(&self) -> (request: FocusRequest)
        ensures
            request == focus_request(*self),
    {
        match *self {
            FocusState::Connecting => FocusRequest::Connect,
            FocusState::InterningActiveWindow => FocusRequest::InternAtom {
                property: Property::ActiveWindow,
            },
            FocusState::InterningPid { active_window } => FocusRequest::InternAtom {
                property: Property::WmPid,
            },
            FocusState::InterningState { active_window, pid } => FocusRequest::InternAtom {
                property: Property::WmState,
            },
            FocusState::SelectingRoot { atoms } => FocusRequest::SelectRoot,
            FocusState::ReadingActiveWindow { atoms, root } => FocusRequest::GetProperty {
                window: root,
                atom: atoms.active_window,
                kind: ATOM_WINDOW,
                long_length: 1,
            },
            FocusState::OpeningProcessTable { atoms, window } => FocusRequest::OpenProcessTable,
            FocusState::ReadingState { atoms, window } => FocusRequest::GetProperty {
                window,
                atom: atoms.state,
                kind: atoms.state,
                long_length: 1,
            },
            FocusState::ReportingState { atoms, window } => FocusRequest::Report {
                note: FocusNote::StateUnknown { window },
            },
            FocusState::ReadingPid { atoms, window } => FocusRequest::GetProperty {
                window,
                atom: atoms.pid,
                kind: ATOM_CARDINAL,
                long_length: 1,
            },
            FocusState::ReportingPid { window } => FocusRequest::Report {
                note: FocusNote::PidMissing { window },
            },
            FocusState::ReadingClass { window } => FocusRequest::GetProperty {
                window,
                atom: ATOM_WM_CLASS,
                kind: ATOM_STRING,
                long_length: CLASS_LENGTH,
            },
        }
    }

    /// Takes the answer to the pending request and moves on. An event of the
    /// wrong kind is ignored: the state comes back unchanged.
    pub fn step(self, event: FocusEvent) -> (p: FocusProgress)
        ensures
            p@ == focus_step(self, event@),
    {
        match (self, event) {
            (FocusState::Connecting, FocusEvent::Connected(ok)) => if ok {
                FocusProgress::Next(FocusState::InterningActiveWindow)
            } else {
                FocusProgress::Done(Err(FocusError::Connection))
            },
            (FocusState::InterningActiveWindow, FocusEvent::AtomInterned(atom)) => match atom {
                Some(active_window) => FocusProgress::Next(
                    FocusState::InterningPid { active_window },
                ),
                None => fail(Property::ActiveWindow, Fault::Atom),
            },
            (FocusState::InterningPid { active_window }, FocusEvent::AtomInterned(atom)) => {
                match atom {
                    Some(pid) => FocusProgress::Next(
                        FocusState::InterningState { active_window, pid },
                    ),
                    None => fail(Property::WmPid, Fault::Atom),
                }
            },
            (FocusState::InterningState { active_window, pid }, FocusEvent::AtomInterned(atom)) => {
                match atom {
                    Some(state) => FocusProgress::Next(
                        FocusState::SelectingRoot { atoms: Atoms { active_window, pid, state } },
                    ),
                    None => fail(Property::WmState, Fault::Atom),
                }
            },
            (FocusState::SelectingRoot { atoms }, FocusEvent::RootSelected(root)) => match root {
                Some(root) => FocusProgress::Next(FocusState::ReadingActiveWindow { atoms, root }),
                None => FocusProgress::Done(Err(FocusError::Configuration)),
            },
            (FocusState::ReadingActiveWindow { atoms, root }, FocusEvent::PropertyRead(reply)) => {
                on_active_window(atoms, reply)
            },
            (
                FocusState::OpeningProcessTable { atoms, window },
                FocusEvent::ProcessTableOpened(ok),
            ) => if ok {
                FocusProgress::Next(FocusState::ReadingState { atoms, window })
            } else {
                FocusProgress::Done(Err(FocusError::ProcessTable))
            },
            (FocusState::ReadingState { atoms, window }, FocusEvent::PropertyRead(reply)) => {
                on_state(atoms, window, reply)
            },
            (FocusState::ReportingState { atoms, window }, FocusEvent::Reported) => {
                FocusProgress::Next(FocusState::ReadingPid { atoms, window })
            },
            (FocusState::ReadingPid { atoms, window }, FocusEvent::PropertyRead(reply)) => {
                on_pid(window, reply)
            },
            (FocusState::ReportingPid { window }, FocusEvent::Reported) => {
                FocusProgress::Next(FocusState::ReadingClass { window })
            },
            (FocusState::ReadingClass { window }, FocusEvent::PropertyRead(reply)) => {
                on_class(reply)
            },
            (state, _) => FocusProgress::Next(state),
        }
    }
}

/// Whether a state awaits a property that must hold exactly one 32-bit item.
pub open spec fn awaits_single(state: FocusState) -> bool {
    state is ReadingActiveWindow || state is ReadingState || state is ReadingPid
}

/// The property that a state awaits, if it awaits one.
pub open spec fn awaited(state: FocusState) -> Property {
    match state {
        FocusState::ReadingActiveWindow { atoms, root } => Property::ActiveWindow,
        FocusState::ReadingState { atoms, window } => Property::WmState,
        FocusState::ReadingPid { atoms, window } => Property::WmPid,
        _ => Property::WmClass,
    }
}

/// A window whose recorded state is anything but the normal one ends the
/// attempt with a state error; the window's process is never asked for.
pub proof fn law_hidden_window_ends_attempt(atoms: Atoms, window: u32, reply: ReplyModel, code: u32)
    requires
        single_value(reply) == Single::Value(code),
        code != WindowState::Normal.code_of(),
    ensures
        focus_step(
            FocusState::ReadingState { atoms, window },
            FocusEventModel::PropertyRead(Some(reply)),
        ) == failed(FocusErrorModel::State { window, state: code }),
{
}

/// The window's process is asked for only from a state that every window in
/// a state other than the normal one fails to reach: the step out of
/// `ReadingState` leads there only for the normal state or a missing
/// property.
pub proof fn law_pid_asked_only_of_visible(atoms: Atoms, window: u32, event: FocusEventModel)
    requires
        focus_step(FocusState::ReadingState { atoms, window }, event) matches FocusProgressModel::Next(
            next,
        ) && next != (FocusState::ReadingState { atoms, window }),
    ensures
        event matches FocusEventModel::PropertyRead(reply) && (reply matches Some(r)
            ==> single_value(r) == Single::Absent || single_value(r) == Single::Value(
            WindowState::Normal.code_of(),
        )),
{
}

/// The process table is opened after the focused window is known and before
/// its process is asked for: a step that changes the state leads to opening
/// the table only from the read of the focused window, to the read of the
/// window's state only from the table having been opened, and to the read of
/// the window's process only from there.
pub proof fn law_process_table_opened_in_between(state: FocusState, event: FocusEventModel)
    requires
        focus_step(state, event) matches FocusProgressModel::Next(next) && next != state,
    ensures
        focus_step(state, event)->Next_0 is OpeningProcessTable ==> state is ReadingActiveWindow,
        focus_step(state, event)->Next_0 is ReadingState ==> state is OpeningProcessTable && event
            == FocusEventModel::ProcessTableOpened(true),
        focus_step(state, event)->Next_0 is ReportingState ==> state is ReadingState,
        focus_step(state, event)->Next_0 is ReadingPid ==> state is ReadingState
            || state is ReportingState,
{
}

/// A reply that claims any number of items but one, where exactly one 32-bit
/// item is expected, is a protocol error. The one exception is the empty
/// reply to a read of the window's state or process, which means that the
/// property is not set.
pub proof fn law_wrong_count_is_protocol_error(state: FocusState, reply: ReplyModel)
    requires
        awaits_single(state),
        reply.value_len != 1,
        !(single_value(reply) == Single::Absent && (state is ReadingState || state is ReadingPid)),
    ensures
        focus_step(state, FocusEventModel::PropertyRead(Some(reply))) == broken(
            awaited(state),
            Fault::Malformed,
        ),
{
}

/// A reply of one item whose bytes are not four is a protocol error too.
pub proof fn law_wrong_size_is_protocol_error(state: FocusState, reply: ReplyModel)
    requires
        awaits_single(state),
        reply.value_len == 1,
        reply.value.len() != 4,
    ensures
        focus_step(state, FocusEventModel::PropertyRead(Some(reply))) == broken(
            awaited(state),
            Fault::Malformed,
        ),
{
}

} // verus!

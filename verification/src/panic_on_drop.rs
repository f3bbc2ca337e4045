//! A guard for resources that must not be dropped before they were cleaned up.

use crate::output_stream::line::text::as_text;
use std::borrow::Cow;
use vstd::prelude::*;

verus! {

/// A guard that asks for a panic when it is dropped while armed.
///
/// Call [`PanicOnDrop::defuse`] to prevent the panic.
#[derive(Debug)]
pub struct PanicOnDrop {
    /// Name of the original resource that encloses this type.
    resource_name: Cow<'static, str>,
    /// Descriptive error, telling the user why the enclosing type should not have been dropped.
    error_msg: Cow<'static, str>,
    /// Descriptive message, telling the user what can, should or must be done to prevent the panic.
    help_msg: Cow<'static, str>,
    /// Internal flag to control the panic raise.
    armed: bool,
}

/// What a [`PanicOnDrop`] knows.
pub struct Guarded {
    /// Name of the guarded resource.
    pub resource_name: Seq<char>,
    /// Why the resource should not have been dropped.
    pub error_msg: Seq<char>,
    /// How to prevent the panic.
    pub help_msg: Seq<char>,
    /// Whether dropping raises a panic.
    pub armed: bool,
}

impl View for PanicOnDrop {
    type V = Guarded;

    closed spec fn view(&self) -> Guarded {
        Guarded {
            resource_name: self.resource_name@,
            error_msg: self.error_msg@,
            help_msg: self.help_msg@,
            armed: self.armed,
        }
    }
}

/// What dropping a guard has to do.
#[derive(Debug, PartialEq, Eq)]
pub enum DropAction {
    /// Nothing, the guard was defused.
    Nothing,
    /// Warn with the message. The thread is already panicking, and a second panic would abort the
    /// process and hide the first.
    Warn(String),
    /// Panic with the message.
    Panic(String),
}

/// The message of a guard that was dropped while armed.
pub open spec fn drop_message(guarded: Guarded, backtrace: Seq<char>) -> Seq<char> {
    "Resource '"@ + guarded.resource_name
        + "' should not have been dropped at this point!\n\nErr: "@ + guarded.error_msg
        + "\n\nHelp: "@ + guarded.help_msg + "\n\nBacktrace: "@ + backtrace
}

impl PanicOnDrop {
    /// Creates a new armed guard.
    ///
    /// The panic can only be prevented when [`PanicOnDrop::defuse`] was called before this type is
    /// dropped.
    pub fn new(
        resource_name: Cow<'static, str>,
        error_msg: Cow<'static, str>,
        help_msg: Cow<'static, str>,
    ) -> (r: Self)
        ensures
            r@ == (Guarded {
                resource_name: resource_name@,
                error_msg: error_msg@,
                help_msg: help_msg@,
                armed: true,
            }),
    {
        Self { resource_name, error_msg, help_msg, armed: true }
    }

    /// Calling this prevents the panic from being raised when this type is dropped.
    pub fn defuse(&mut self)
        ensures
            final(self)@ == (Guarded { armed: false, ..old(self)@ }),
    {
        self.armed = false;
    }

    /// When armed, a panic is raised when dropped.
    pub fn is_armed(&self) -> (r: bool)
        ensures
            r == self@.armed,
    {
        self.armed
    }

    /// Says what dropping the guard has to do, given a text of the backtrace.
    #[must_use]
    pub fn on_drop(&self, panicking: bool, backtrace: &str) -> (r: DropAction)
        ensures
            match r {
                DropAction::Nothing => !self@.armed,
                DropAction::Warn(message) => self@.armed && panicking && message@ == drop_message(
                    self@,
                    backtrace@,
                ),
                DropAction::Panic(message) => self@.armed && !panicking && message@
                    == drop_message(self@, backtrace@),
            },
            match r {
                DropAction::Nothing => true,
                DropAction::Warn(message) | DropAction::Panic(message) => message@ == "Resource '"@
                    + self@.resource_name
                    + "' should not have been dropped at this point!\n\nErr: "@ + self@.error_msg
                    + "\n\nHelp: "@ + self@.help_msg + "\n\nBacktrace: "@ + backtrace@,
            },
    {
        if !self.is_armed() {
            return DropAction::Nothing;
        }
        let mut message = "Resource '".to_owned();
        message.append(as_text(&self.resource_name));
        message.append("' should not have been dropped at this point!\n\nErr: ");
        message.append(as_text(&self.error_msg));
        message.append("\n\nHelp: ");
        message.append(as_text(&self.help_msg));
        message.append("\n\nBacktrace: ");
        message.append(backtrace);
        if panicking {
            DropAction::Warn(message)
        } else {
            DropAction::Panic(message)
        }
    }
}

} // verus!

//! Readiness conditions: the rules that say when a container is usable.

use std::time::Duration;
use vstd::prelude::*;

verus! {

/// A condition to wait for before a container counts as ready.
#[derive(Debug, PartialEq, Eq)]
pub enum WaitFor {
    /// Nothing to wait for.
    Nothing,
    /// A line of the container's standard output that contains `message`.
    StdOutMessage { message: String },
    /// A line of the container's standard error that contains `message`.
    StdErrMessage { message: String },
    /// A fixed delay.
    Duration { length: Duration },
    /// The container's health check reporting healthy.
    Healthcheck,
}

/// A readiness condition with its message as text.
pub enum WaitForView {
    Nothing,
    StdOutMessage { message: Seq<char> },
    StdErrMessage { message: Seq<char> },
    Duration { length: Duration },
    Healthcheck,
}

impl DeepView for WaitFor {
    type V = WaitForView;

    open spec fn deep_view(&self) -> WaitForView {
        match self {
            WaitFor::Nothing => WaitForView::Nothing,
            WaitFor::StdOutMessage { message } => WaitForView::StdOutMessage { message: message@ },
            WaitFor::StdErrMessage { message } => WaitForView::StdErrMessage { message: message@ },
            WaitFor::Duration { length } => WaitForView::Duration { length: *length },
            WaitFor::Healthcheck => WaitForView::Healthcheck,
        }
    }
}

impl Clone for WaitFor {
    fn clone(&self) -> (copy: WaitFor)
        ensures
            copy.deep_view() == self.deep_view(),
    {
        match self {
            WaitFor::Nothing => WaitFor::Nothing,
            WaitFor::StdOutMessage { message } => WaitFor::StdOutMessage {
                message: message.clone(),
            },
            WaitFor::StdErrMessage { message } => WaitFor::StdErrMessage {
                message: message.clone(),
            },
            WaitFor::Duration { length } => WaitFor::Duration { length: *length },
            WaitFor::Healthcheck => WaitFor::Healthcheck,
        }
    }
}

} // verus!

use vstd::prelude::*;
use vstd::string::StringExecFns;

verus! {

/// Errors raised by the graphics core.
///
/// Setup errors (`NoSuitableAdapter`, `NoSuitableQueue`,
/// `UnsupportedSurfaceFormat`) are fatal and reported once at startup.
/// `SurfaceUnrecoverable` is the escalation of a transient surface loss that
/// survived the single permitted reconfigure-and-retry. `Busy` reports a full
/// command queue and is never fatal: the caller decides whether to drop or
/// retry the command. `SubmissionFailed` terminates the render loop.
#[derive(Clone, Copy, Debug, PartialEq, Eq, Structural)]
pub enum GraphicsError {
    NoSuitableAdapter,
    NoSuitableQueue,
    UnsupportedSurfaceFormat,
    SurfaceUnrecoverable,
    Busy,
    SubmissionFailed,
}

impl GraphicsError {
    /// A human-readable description of the error.
    pub fn message(&self) -> (s: String)
        ensures
            *self is NoSuitableAdapter ==> s@ == "no suitable graphics adapter"@,
            *self is NoSuitableQueue ==> s@ == "no queue family supports graphics and presentation"@,
            *self is UnsupportedSurfaceFormat ==> s@ == "the adapter reports no supported surface format"@,
            *self is SurfaceUnrecoverable ==> s@ == "the surface was lost and could not be reconstructed"@,
            *self is Busy ==> s@ == "the render command queue is full"@,
            *self is SubmissionFailed ==> s@ == "queue submission failed"@,
    {
        match self {
            GraphicsError::NoSuitableAdapter => String::from_str("no suitable graphics adapter"),
            GraphicsError::NoSuitableQueue => {
                String::from_str("no queue family supports graphics and presentation")
            },
            GraphicsError::UnsupportedSurfaceFormat => {
                String::from_str("the adapter reports no supported surface format")
            },
            GraphicsError::SurfaceUnrecoverable => {
                String::from_str("the surface was lost and could not be reconstructed")
            },
            GraphicsError::Busy => String::from_str("the render command queue is full"),
            GraphicsError::SubmissionFailed => String::from_str("queue submission failed"),
        }
    }
}

} // verus!

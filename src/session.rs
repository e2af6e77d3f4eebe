//! Decisions of one VNC capture session: which target it can connect to,
//! which authentication to choose, and what each server event does to the
//! framebuffer being assembled.

use vstd::prelude::*;
use crate::frame::{Image, Rect, put_outcome, rect_written};
use crate::pixel::DecodeError;
use crate::target::Target;

verus! {

/// An authentication method that a server offers.
#[derive(Copy, Clone, PartialEq, Eq, Structural, Debug)]
pub enum AuthMethod {
    NoAuth,
    Password,
    Other,
}

/// Why a capture session failed.
#[derive(Copy, Clone, PartialEq, Eq, Structural, Debug)]
pub enum CaptureError {
    /// The target is a URL, which has no VNC address.
    InvalidTarget,
    /// The connection broke with an error.
    Connection,
    /// A rectangle of pixels could not be decoded.
    Decode(DecodeError),
}

/// A server event, as the session loop hands it over.
#[derive(Debug)]
pub enum SessionEvent {
    /// The server closed the connection with no further data.
    Disconnected,
    /// The connection broke with an error.
    Broken,
    /// A rectangle of encoded pixels.
    PutPixels(Rect, Vec<u8>),
    /// No more updates belong to the requested frame.
    EndOfFrame,
    /// Anything else; it is skipped.
    Other,
}

/// What the session loop does after an event.
#[derive(Copy, Clone, PartialEq, Eq, Structural, Debug)]
pub enum PollStep {
    /// Keep polling for events.
    Continue,
    /// Save the framebuffer as it is.
    Finish,
}

/// The address that a VNC session connects to; a URL target is refused.
pub fn vnc_address(target: &Target) -> (r: Result<&String, CaptureError>)
    ensures
        match target {
            Target::Address(a) => r == Ok::<&String, CaptureError>(a),
            Target::Url(_) => r == Err::<&String, CaptureError>(CaptureError::InvalidTarget),
        },
{
    match target {
        Target::Address(a) => Ok(a),
        Target::Url(_) => Err(CaptureError::InvalidTarget),
    }
}

/// Chooses the "no authentication" method if the server offers it, and
/// nothing otherwise.
pub fn choose_auth(offered: &[AuthMethod]) -> (r: Option<AuthMethod>)
    ensures
        r == (if offered@.contains(AuthMethod::NoAuth) {
            Some(AuthMethod::NoAuth)
        } else {
            None::<AuthMethod>
        }),
{
    let mut i: usize = 0;
    while i < offered.len()
        invariant
            i <= offered@.len(),
            forall|j: int| 0 <= j < i ==> offered@[j] != AuthMethod::NoAuth,
        decreases offered@.len() - i,
    {
        if offered[i] == AuthMethod::NoAuth {
            return Some(AuthMethod::NoAuth);
        }
        i = i + 1;
    }
    None
}

/// Applies one server event to the framebuffer: a rectangle of pixels is
/// decoded into it, the end of the frame or a clean disconnect finishes the
/// capture, a broken connection or an undecodable rectangle fails it, and
/// anything else is skipped.
pub fn handle_event(image: &mut Image, event: &SessionEvent) -> (r: Result<PollStep, CaptureError>)
    requires
        old(image).wf(),
    ensures
        final(image).wf(),
        final(image).format == old(image).format,
        final(image).width == old(image).width,
        final(image).height == old(image).height,
        match event {
            SessionEvent::PutPixels(rect, pixels) => {
                let outcome = put_outcome(
                    old(image).format,
                    old(image).width as int,
                    old(image).height as int,
                    *rect,
                    pixels@,
                );
                &&& (outcome is Ok ==> r == Ok::<PollStep, CaptureError>(PollStep::Continue)
                    && rect_written(*old(image), *final(image), *rect, pixels@))
                &&& (outcome is Err ==> r == Err::<PollStep, CaptureError>(
                    CaptureError::Decode(outcome->Err_0),
                ) && *final(image) == *old(image))
            },
            SessionEvent::Disconnected => r == Ok::<PollStep, CaptureError>(PollStep::Finish)
                && *final(image) == *old(image),
            SessionEvent::EndOfFrame => r == Ok::<PollStep, CaptureError>(PollStep::Finish)
                && *final(image) == *old(image),
            SessionEvent::Broken => r == Err::<PollStep, CaptureError>(CaptureError::Connection)
                && *final(image) == *old(image),
            SessionEvent::Other => r == Ok::<PollStep, CaptureError>(PollStep::Continue)
                && *final(image) == *old(image),
        },
{
    match event {
        SessionEvent::PutPixels(rect, pixels) => match image.put_pixels(*rect, pixels.as_slice()) {
            Ok(()) => Ok(PollStep::Continue),
            Err(e) => Err(CaptureError::Decode(e)),
        },
        SessionEvent::Disconnected => Ok(PollStep::Finish),
        SessionEvent::EndOfFrame => Ok(PollStep::Finish),
        SessionEvent::Broken => Err(CaptureError::Connection),
        SessionEvent::Other => Ok(PollStep::Continue),
    }
}

} // verus!

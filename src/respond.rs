use vstd::prelude::*;

verus! {

/// What the client gets back: the whole page with its navigation shell, or
/// only the part that it swaps in place.
#[derive(Clone, Copy, Debug, PartialEq, Eq, Structural)]
pub enum Shape {
    Page,
    Fragment,
}

/// The markers a hypermedia client puts on a request.
#[derive(Clone, Copy, Debug, PartialEq, Eq, Structural)]
pub struct HxRequest {
    /// The request comes from the hypermedia client.
    pub is_htmx: bool,
    /// The request is a navigation that still wants the full shell.
    pub boosted: bool,
}

pub open spec fn shape_of(is_fragment: bool, boosted: bool) -> Shape {
    if is_fragment && !boosted {
        Shape::Fragment
    } else {
        Shape::Page
    }
}

/// Chooses between the full page and a bare fragment: only an unboosted
/// request of the hypermedia client gets a fragment.
pub fn negotiate(is_fragment: bool, boosted: bool) -> (r: Shape)
    ensures
        r == shape_of(is_fragment, boosted),
{
    if is_fragment && !boosted {
        Shape::Fragment
    } else {
        Shape::Page
    }
}

/// When the client refreshes its location indicator.
#[derive(Clone, Copy, Debug, PartialEq, Eq, Structural)]
pub enum Refresh {
    /// As soon as the response arrives.
    Now,
    /// Once the new content is swapped in.
    AfterSwap,
    /// Once the swapped content has settled.
    AfterSettle,
}

/// Severity of a client-side notification.
#[derive(Clone, Copy, Debug, PartialEq, Eq, Structural)]
pub enum Variant {
    Success,
    Error,
}

/// A notification that the client shows as a toast.
#[derive(Clone, Debug)]
pub struct Notification {
    pub title: String,
    pub message: String,
    pub variant: Variant,
    pub auto_close: bool,
}

/// The notification of a successful change that closes by itself.
pub fn success_notification(title: String, message: &str) -> (r: Notification)
    ensures
        r.title == title,
        r.message@ == message@,
        r.variant == Variant::Success,
        r.auto_close,
{
    Notification { title, message: message.to_owned(), variant: Variant::Success, auto_close: true }
}

/// Where a redirect sends the client.
#[derive(Clone, Copy, Debug, PartialEq, Eq, Structural)]
pub enum Location {
    Dashboard,
    Group(i64),
}

/// A handler's answer, before the body is rendered. A rendered answer carries
/// exactly one location refresh; a change carries at most one notification.
#[derive(Clone, Debug)]
pub enum Reply<V> {
    Render { shape: Shape, refresh: Refresh, notification: Option<Notification>, view: V },
    Redirect { location: Location, notification: Option<Notification> },
    Done,
}

/// Why a request fails; an absent resource and one of another user give the
/// same answer.
#[derive(Clone, Copy, Debug, PartialEq, Eq, Structural)]
pub enum AppError {
    NotFound,
    BadRequest,
    Forbidden,
    Internal,
}

} // verus!

//! Decisions around downloading and unpacking the archive.
use vstd::prelude::*;

verus! {

/// What to do with the provider's answer to the archive request.
#[derive(Clone, Copy, Debug, PartialEq, Eq, Structural)]
pub enum ResponseAction {
    /// The archive came (status 200): unpack it.
    Unpack,
    /// No such repository or ref (status 404).
    NotFound,
    /// The provider asks for credentials (status 401).
    Unauthorized,
    /// Any other status.
    Failed,
}

/// The action that an HTTP status code calls for.
pub open spec fn action_for(status: u16) -> ResponseAction {
    if status == 200 {
        ResponseAction::Unpack
    } else if status == 404 {
        ResponseAction::NotFound
    } else if status == 401 {
        ResponseAction::Unauthorized
    } else {
        ResponseAction::Failed
    }
}

/// Decides what to do with a response from its status code.
pub fn response_action(status: u16) -> (r: ResponseAction)
    ensures
        r == action_for(status),
{
    if status == 200 {
        ResponseAction::Unpack
    } else if status == 404 {
        ResponseAction::NotFound
    } else if status == 401 {
        ResponseAction::Unauthorized
    } else {
        ResponseAction::Failed
    }
}

impl ResponseAction {
    /// The process exit code with which to stop, or `None` to go on.
    pub fn exit_code(self) -> (r: Option<i32>)
        ensures
            r == (if self == ResponseAction::Unpack {
                None::<i32>
            } else {
                Some(1i32)
            }),
    {
        match self {
            ResponseAction::Unpack => None,
            _ => Some(1),
        }
    }
}

/// The directory to unpack into: the one given, else the current one (`.`).
pub fn destination_or_default(destination: Option<String>) -> (r: String)
    ensures
        r@ == match destination {
            Some(d) => d@,
            None => "."@,
        },
{
    match destination {
        Some(d) => d,
        None => String::from_str("."),
    }
}

} // verus!

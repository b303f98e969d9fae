//! What sending on the signaling socket finds about the socket.
use vstd::prelude::*;

use crate::signaling::error::{Error, ErrorView};

verus! {

/// Sending needs an open socket: without one yet it fails as not initialized,
/// and on one that is not open (yet, or any more) as not open.
pub open spec fn socket_outcome(socket_open: Option<bool>) -> Result<(), ErrorView> {
    match socket_open {
        None => Err(ErrorView::Network("WebSocket not initialized"@)),
        Some(false) => Err(ErrorView::Network("WebSocket not open"@)),
        Some(true) => Ok(()),
    }
}

/// Checks the socket before a send: `socket_open` is `None` when there is no
/// socket yet, and else whether it is open.
pub fn socket_ready(socket_open: Option<bool>) -> (r: Result<(), Error>)
    ensures
        match r {
            Ok(()) => socket_outcome(socket_open) == Ok::<(), ErrorView>(()),
            Err(e) => socket_outcome(socket_open) == Err::<(), ErrorView>(e@),
        },
{
    match socket_open {
        None => Err(Error::Network("WebSocket not initialized".to_owned())),
        Some(false) => Err(Error::Network("WebSocket not open".to_owned())),
        Some(true) => Ok(()),
    }
}

} // verus!

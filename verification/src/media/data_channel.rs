//! What sending a chat message over the data channel does in each channel state.
use vstd::prelude::*;

use crate::media::error::{MediaError, MediaErrorView};

verus! {

/// The ready state of a data channel.
#[derive(Debug, Clone, Copy, PartialEq, Eq)]
pub enum DataChannelState {
    Connecting,
    Open,
    Closing,
    Closed,
}

/// What to do with an outgoing message.
#[derive(Debug, Clone, Copy, PartialEq, Eq)]
pub enum SendPlan {
    /// Send it on the channel now.
    SendNow,
    /// Hold it until the channel opens.
    Queue,
}

/// The outcome of sending when the channel is in `state` (`None`: no channel yet).
pub open spec fn send_outcome(state: Option<DataChannelState>) -> Result<SendPlan, MediaErrorView> {
    match state {
        None => Err(MediaErrorView::DataChannel("No DataChannel initialized"@)),
        Some(DataChannelState::Open) => Ok(SendPlan::SendNow),
        Some(DataChannelState::Connecting) => Ok(SendPlan::Queue),
        Some(_) => Err(MediaErrorView::DataChannel("DataChannel is closed or closing"@)),
    }
}

/// Sending on an open channel sends at once, on a connecting one queues, and
/// fails on a missing, closing or closed one.
pub fn send_plan(state: Option<DataChannelState>) -> (r: Result<SendPlan, MediaError>)
    ensures
        match r {
            Ok(p) => send_outcome(state) == Ok::<SendPlan, MediaErrorView>(p),
            Err(e) => send_outcome(state) == Err::<SendPlan, MediaErrorView>(e@),
        },
{
    match state {
        None => Err(MediaError::DataChannel("No DataChannel initialized".to_owned())),
        Some(DataChannelState::Open) => Ok(SendPlan::SendNow),
        Some(DataChannelState::Connecting) => Ok(SendPlan::Queue),
        Some(_) => Err(MediaError::DataChannel("DataChannel is closed or closing".to_owned())),
    }
}

} // verus!

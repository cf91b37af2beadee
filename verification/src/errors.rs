use vstd::prelude::*;

verus! {

/// What can go wrong in an environment.
#[derive(Clone, Copy, Debug, PartialEq, Eq, Structural)]
pub enum EnvError {
    /// The named channel could not be created or connected in time.
    ChannelUnavailable,
    /// No frame arrived within the bound the caller gave.
    ChannelTimeout,
    /// The peer disconnected.
    ChannelClosed,
    /// An observation was asked for a player that the snapshot does not hold.
    UnknownAgent,
    /// A discrete action lies outside the action table.
    InvalidActionIndex,
    /// The channel opened but the configuration could not be delivered.
    HandshakeFailed,
}

impl EnvError {
    /// Whether the error comes from the channel rather than from the caller.
    pub open spec fn is_channel_error(self) -> bool {
        self == EnvError::ChannelUnavailable || self == EnvError::ChannelTimeout || self
            == EnvError::ChannelClosed
    }

    /// Whether the error comes from the channel rather than from the caller.
    pub fn is_channel(&self) -> (b: bool)
        ensures
            b == self.is_channel_error(),
    {
        match self {
            EnvError::ChannelUnavailable => true,
            EnvError::ChannelTimeout => true,
            EnvError::ChannelClosed => true,
            _ => false,
        }
    }
}

} // verus!

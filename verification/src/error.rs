//! What can go wrong in the library.

use vstd::prelude::*;

verus! {

/// The ways in which a frame, a configuration or a session can fail.
#[derive(Clone, Copy, Debug, PartialEq, Eq, Structural)]
pub enum FeedError {
    /// The text is no JSON, or the JSON has not the shape that the exchange's
    /// messages have.
    Malformed,
    /// A price or a quantity is no decimal number.
    BadDecimal,
    /// A depth message carries a result, which only acknowledgements do.
    ResultNotEmpty,
    /// A data event came on a channel that is no order-book channel.
    NotOrderbookChannel,
    /// A book event came for a channel that was never announced.
    UnknownChannel,
    /// No exchange of that name is known.
    UnsupportedExchange,
    /// The exchange was configured without any pair.
    NoPairs,
    /// A frame was handed in before the session was connected.
    NotConnected,
    /// The stream was closed, by the other side or because the session has
    /// reached the age at which it must be renewed.
    Closed,
    /// A payload is no UTF-8 text.
    BadText,
    /// A template has placeholders that its arguments do not fill.
    BadTemplate,
    /// A pair is not written as the exchange's polling endpoint needs it.
    BadPair,
    /// The polling endpoint answered with a status other than success.
    BadStatus,
}

impl FeedError {
    /// Whether the error is one of a single frame or answer, which is
    /// skipped while the session goes on. Every other error ends the
    /// session.
    pub open spec fn is_skippable(self) -> bool {
        self == FeedError::Malformed || self == FeedError::BadDecimal || self
            == FeedError::ResultNotEmpty || self == FeedError::NotOrderbookChannel || self
            == FeedError::UnknownChannel || self == FeedError::BadStatus
    }

    /// Whether the session must be torn down and connected anew after the
    /// error: it must unless the error is one of a single frame or answer.
    pub fn ends_session(&self) -> (r: bool)
        ensures
            r == !self.is_skippable(),
    {
        match self {
            FeedError::Malformed => false,
            FeedError::BadDecimal => false,
            FeedError::ResultNotEmpty => false,
            FeedError::NotOrderbookChannel => false,
            FeedError::UnknownChannel => false,
            FeedError::BadStatus => false,
            _ => true,
        }
    }
}

} // verus!

//! Interleaved channels.

use vstd::prelude::*;

use crate::headers::{decimal_digits, decimal_text};

verus! {

/// Error returned when the interleaved channel was closed.
#[derive(Clone, Copy, PartialEq, Eq, Structural, Debug)]
pub struct InterleavedChannelClosedError {
    pub channel_id: u8,
}

impl InterleavedChannelClosedError {
    /// Corresponding channel's id.
    pub fn channel_id(&self) -> (r: u8)
        ensures
            r == self.channel_id,
    {
        self.channel_id
    }

    /// A description of this error.
    pub fn text(&self) -> (r: String)
        ensures
            r@ == "Channel "@ + decimal_digits(self.channel_id as nat) + " was closed"@,
    {
        let number = decimal_text(self.channel_id as u64);
        let mut text = "Channel ".to_owned();
        text.append(number.as_str());
        text.append(" was closed");
        text
    }
}

/// What sending data over a channel results in.
pub open spec fn spec_send_data_result(channel_id: u8, taken: bool, acknowledged: bool) -> Result<
    (),
    InterleavedChannelClosedError,
> {
    if taken && acknowledged {
        Ok(())
    } else {
        Err(InterleavedChannelClosedError { channel_id })
    }
}

/// Data was sent just if it was taken and acknowledged. Otherwise its channel is named.
pub proof fn law_data_is_sent(channel_id: u8, taken: bool, acknowledged: bool)
    ensures
        spec_send_data_result(channel_id, taken, acknowledged) is Ok <==> taken && acknowledged,
        spec_send_data_result(channel_id, taken, acknowledged) matches Err(err) ==> err.channel_id
            == channel_id,
{
}

/// What sending data over a channel results in: it has to be taken, and then to be acknowledged
/// when it is on its way. Whoever does neither is gone.
pub fn send_data_result(channel_id: u8, taken: bool, acknowledged: bool) -> (r: Result<
    (),
    InterleavedChannelClosedError,
>)
    ensures
        r == spec_send_data_result(channel_id, taken, acknowledged),
{
    if taken && acknowledged {
        Ok(())
    } else {
        Err(InterleavedChannelClosedError { channel_id })
    }
}

} // verus!

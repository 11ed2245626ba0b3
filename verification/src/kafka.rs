use vstd::prelude::*;

verus! {

/// The notification channel: the ordered feed of messages accepted on the
/// "events" topic. It models the broker state one producer appends to and
/// every consumer group reads from.
pub struct Channel {
    pub messages: Vec<Vec<u8>>,
}

impl Channel {
    /// An empty feed.
    pub fn new() -> (r: Channel)
        ensures
            r.messages@.len() == 0,
    {
        Channel { messages: Vec::new() }
    }
}

/// One consumer group's position in the feed. Each subscription owns its
/// own consumer, so every subscriber sees every message independently.
pub struct Consumer {
    pub group_id: u64,
    pub offset: usize,
}

/// Publish one message on the channel: it is appended to the feed and every
/// earlier message is untouched.
pub fn send_message(chan: &mut Channel, payload: Vec<u8>)
    ensures
        final(chan).messages@ == old(chan).messages@.push(payload),
{
    chan.messages.push(payload);
}

/// A fresh consumer-group id: the counter is bumped once per subscription.
pub fn get_kafka_consumer_group_id(counter: &mut u64) -> (id: u64)
    requires
        *old(counter) < u64::MAX,
    ensures
        *final(counter) == *old(counter) + 1,
        id == *old(counter) + 1,
{
    *counter = *counter + 1;
    *counter
}

/// A consumer that starts at the current end of the feed: it replays no
/// history and will see exactly the messages published after it was made.
pub fn create_consumer(chan: &Channel, group_id: u64) -> (c: Consumer)
    ensures
        c.offset == chan.messages@.len(),
        c.group_id == group_id,
{
    Consumer { group_id, offset: chan.messages.len() }
}

} // verus!

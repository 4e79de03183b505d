//! Message queues: tokio's unbounded channels.

use crate::message::{Message, MessageView};
use tokio::sync::mpsc::{UnboundedReceiver, UnboundedSender};
use vstd::prelude::*;

verus! {

/// `tokio::sync::mpsc::UnboundedSender`, the sending half of a queue.
#[verifier::external_type_specification]
#[verifier::external_body]
#[verifier::reject_recursive_types(T)]
pub struct ExUnboundedSender<T>(UnboundedSender<T>);

/// `tokio::sync::mpsc::UnboundedReceiver`, the receiving half of a queue.
#[verifier::external_type_specification]
#[verifier::external_body]
#[verifier::reject_recursive_types(T)]
pub struct ExUnboundedReceiver<T>(UnboundedReceiver<T>);

/// The messages that this handle has put on its queue, oldest first.
pub uninterp spec fn sent_messages(sender: UnboundedSender<Message>) -> Seq<MessageView>;

/// Whether the queue has refused a message from this handle.
pub uninterp spec fn refused(sender: UnboundedSender<Message>) -> bool;

/// What this handle has taken off its queue each time it tried to, oldest first:
/// a message, or nothing.
pub uninterp spec fn taken_messages(receiver: UnboundedReceiver<Message>) -> Seq<
    Option<MessageView>,
>;

/// The messages among what was taken, in order.
pub open spec fn messages_among(taken: Seq<Option<MessageView>>) -> Seq<MessageView>
    decreases taken.len(),
{
    if taken.len() == 0 {
        Seq::empty()
    } else {
        match taken.last() {
            Some(message) => messages_among(taken.drop_last()).push(message),
            None => messages_among(taken.drop_last()),
        }
    }
}

/// Which queue this handle fills.
pub uninterp spec fn queue_filled(sender: UnboundedSender<Message>) -> int;

/// Which queue this handle drains.
pub uninterp spec fn queue_drained(receiver: UnboundedReceiver<Message>) -> int;

/// `tokio::sync::mpsc::unbounded_channel`: the two halves of a new queue, on
/// which nothing has been put, refused or taken. What the one half puts on it,
/// the other takes off.
#[verifier::external_body]
pub(crate) fn queue() -> (halves: (UnboundedSender<Message>, UnboundedReceiver<Message>))
    ensures
        sent_messages(halves.0) == Seq::<MessageView>::empty(),
        !refused(halves.0),
        taken_messages(halves.1) == Seq::<Option<MessageView>>::empty(),
        queue_filled(halves.0) == queue_drained(halves.1),
{
    tokio::sync::mpsc::unbounded_channel()
}

/// `UnboundedSender::send`: puts the message on the queue, or refuses it once
/// the receiving half is closed or gone. A queue that has refused a message
/// stays closed and refuses every later one; the refusal reads "channel
/// closed". When the receiving half goes away is not up to the sender, so
/// nothing is claimed of whether a first refusal comes. (With more messages
/// waiting than half of what a `usize` counts, tokio aborts the process; memory
/// runs out long before.)
#[verifier::external_body]
pub(crate) fn send(sender: &mut UnboundedSender<Message>, message: Message) -> (result: Result<
    (),
    String,
>)
    ensures
        queue_filled(*final(sender)) == queue_filled(*old(sender)),
        match result {
            Ok(()) => {
                &&& !refused(*old(sender))
                &&& !refused(*final(sender))
                &&& sent_messages(*final(sender)) == sent_messages(*old(sender)).push(message@)
            },
            Err(text) => {
                &&& refused(*final(sender))
                &&& sent_messages(*final(sender)) == sent_messages(*old(sender))
                &&& text@ == "channel closed"@
            },
        },
{
    sender.send(message).map_err(|error| error.to_string())
}

/// `UnboundedReceiver::try_recv`: takes the oldest waiting message off the
/// queue, or nothing when none waits. What waits there is up to the senders.
#[verifier::external_body]
pub(crate) fn try_receive(receiver: &mut UnboundedReceiver<Message>) -> (message: Option<Message>)
    ensures
        queue_drained(*final(receiver)) == queue_drained(*old(receiver)),
        taken_messages(*final(receiver)) == taken_messages(*old(receiver)).push(
            match message {
                Some(message) => Some(message@),
                None => None,
            },
        ),
{
    receiver.try_recv().ok()
}

} // verus!

//! The lock-free ring buffers that carry MIDI to the audio thread.

use vstd::prelude::*;

use crate::engine::events::RtMidi;

verus! {

/// The write end of `rtrb`'s ring buffer.
#[verifier::external_type_specification]
#[verifier::external_body]
#[verifier::reject_recursive_types(T)]
pub struct ExProducer<T>(rtrb::Producer<T>);

/// The read end of `rtrb`'s ring buffer.
#[verifier::external_type_specification]
#[verifier::external_body]
#[verifier::reject_recursive_types(T)]
pub struct ExConsumer<T>(rtrb::Consumer<T>);

/// All that a producer has put into its ring buffer so far, in order.
pub uninterp spec fn put_in(producer: rtrb::Producer<RtMidi>) -> Seq<RtMidi>;

/// All that a producer was asked to put into its ring buffer so far, in
/// order, whether there was room or not.
pub uninterp spec fn offered(producer: rtrb::Producer<RtMidi>) -> Seq<RtMidi>;

/// All that a consumer has taken out of its ring buffer so far, in order.
pub uninterp spec fn taken(consumer: rtrb::Consumer<RtMidi>) -> Seq<RtMidi>;

/// Whether a consumer's last attempt to take a message found none.
pub uninterp spec fn ran_dry(consumer: rtrb::Consumer<RtMidi>) -> bool;

/// `rtrb::Producer::push`: is handed the message, and puts it in, or leaves
/// the buffer as it is where it has no room. Whether it has room depends on
/// the other end.
#[verifier::external_body]
pub(crate) fn put(producer: &mut rtrb::Producer<RtMidi>, message: RtMidi) -> (accepted: bool)
    ensures
        offered(*final(producer)) == offered(*old(producer)).push(message),
        put_in(*final(producer)) == if accepted {
            put_in(*old(producer)).push(message)
        } else {
            put_in(*old(producer))
        },
{
    producer.push(message).is_ok()
}

/// `rtrb::Consumer::pop`: takes the next message out, or nothing where
/// there is none. Which one there is depends on the other end.
#[verifier::external_body]
pub(crate) fn take(consumer: &mut rtrb::Consumer<RtMidi>) -> (message: Option<RtMidi>)
    ensures
        taken(*final(consumer)) == match message {
            Some(m) => taken(*old(consumer)).push(m),
            None => taken(*old(consumer)),
        },
        ran_dry(*final(consumer)) == (message is None),
{
    consumer.pop().ok()
}

/// The messages that were accepted, in order.
pub open spec fn kept(messages: Seq<RtMidi>, accepted: Seq<bool>) -> Seq<RtMidi>
    decreases messages.len(),
{
    if messages.len() == 0 {
        Seq::empty()
    } else {
        let before = kept(messages.drop_last(), accepted);
        if accepted[messages.len() - 1] {
            before.push(messages.last())
        } else {
            before
        }
    }
}

proof fn lemma_kept_prefix(messages: Seq<RtMidi>, a: Seq<bool>, b: Seq<bool>)
    requires
        messages.len() <= a.len(),
        messages.len() <= b.len(),
        forall|i: int| 0 <= i < messages.len() ==> #[trigger] a[i] == b[i],
    ensures
        kept(messages, a) == kept(messages, b),
    decreases messages.len(),
{
    if messages.len() > 0 {
        lemma_kept_prefix(messages.drop_last(), a, b);
        assert(a[messages.len() - 1] == b[messages.len() - 1]);
    }
}

/// Offers the messages to a ring buffer one after the other. A message
/// without room is dropped; the result says which were accepted.
pub fn send_all(producer: &mut rtrb::Producer<RtMidi>, messages: &Vec<RtMidi>) -> (accepted: Vec<
    bool,
>)
    ensures
        accepted@.len() == messages@.len(),
        offered(*final(producer)) == offered(*old(producer)) + messages@,
        put_in(*final(producer)) == put_in(*old(producer)) + kept(messages@, accepted@),
{
    let ghost start = put_in(*producer);
    let ghost asked = offered(*producer);
    assert(asked + messages@.take(0) =~= asked);
    let mut accepted: Vec<bool> = Vec::new();
    let mut i: usize = 0;
    assert(start + kept(messages@.take(0), accepted@) =~= start);
    while i < messages.len()
        invariant
            i <= messages@.len(),
            accepted@.len() == i,
            start == put_in(*old(producer)),
            asked == offered(*old(producer)),
            offered(*producer) == asked + messages@.take(i as int),
            put_in(*producer) == start + kept(messages@.take(i as int), accepted@),
        decreases messages@.len() - i,
    {
        let ghost before = accepted@;
        let ghost done = messages@.take(i as int);
        let ok = put(producer, messages[i]);
        accepted.push(ok);
        proof {
            let next = messages@.take(i + 1);
            assert(next.drop_last() =~= done);
            assert(next =~= done.push(messages@[i as int]));
            assert(offered(*producer) =~= asked + next);
            lemma_kept_prefix(done, before, accepted@);
            assert(put_in(*producer) =~= start + kept(next, accepted@));
        }
        i += 1;
    }
    assert(messages@.take(i as int) =~= messages@);
    accepted
}

/// What was accepted is kept, in order, and what was not is lost.
pub proof fn law_the_ring_keeps_what_it_accepts(
    messages: Seq<RtMidi>,
    accepted: Seq<bool>,
    more: RtMidi,
    taken: bool,
)
    requires
        accepted.len() == messages.len(),
    ensures
        kept(Seq::empty(), accepted).len() == 0,
        kept(messages.push(more), accepted.push(taken)) == if taken {
            kept(messages, accepted).push(more)
        } else {
            kept(messages, accepted)
        },
        (forall|i: int| 0 <= i < accepted.len() ==> #[trigger] accepted[i]) ==> kept(
            messages,
            accepted,
        ) == messages,
    decreases messages.len(),
{
    assert(messages.push(more).drop_last() =~= messages);
    lemma_kept_prefix(messages, accepted, accepted.push(taken));
    if messages.len() > 0 {
        let (front, before) = (messages.drop_last(), accepted.drop_last());
        law_the_ring_keeps_what_it_accepts(front, before, messages.last(), accepted.last());
        lemma_kept_prefix(front, before, accepted);
        assert(front.push(messages.last()) =~= messages);
        assert(before.push(accepted.last()) =~= accepted);
        if forall|i: int| 0 <= i < accepted.len() ==> #[trigger] accepted[i] {
            assert forall|i: int| 0 <= i < before.len() implies #[trigger] before[i] by {
                assert(accepted[i]);
            }
            assert(accepted[accepted.len() - 1]);
        }
    } else {
        assert(kept(messages, accepted) =~= messages);
    }
}

} // verus!

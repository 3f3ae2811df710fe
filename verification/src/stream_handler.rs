//! Streams that are handled by a task.

use std::collections::HashMap;

use vstd::prelude::*;

use crate::collections::map_keys;

verus! {

broadcast use vstd::std_specs::hash::group_hash_axioms;

/// What a stream gives when it is polled.
#[derive(Clone, Copy, PartialEq, Eq, Structural, Debug)]
pub enum StreamPoll {
    /// Nothing for now.
    Pending,
    /// An item.
    Item,
    /// Nothing any more.
    Finished,
}

/// What is to be done with a stream that was polled.
#[derive(Clone, Copy, PartialEq, Eq, Structural, Debug)]
pub enum StreamStep {
    /// Have the item handled, and poll the stream again.
    Again,
    /// Go on with the next one.
    Next,
    /// Tell the handler of the stream that it has finished, and go on with the next one. The stream
    /// is removed.
    Remove,
}

/// What is to be done with a stream that was polled: it is polled until it gives nothing.
pub open spec fn step_of(poll: StreamPoll) -> StreamStep {
    match poll {
        StreamPoll::Pending => StreamStep::Next,
        StreamPoll::Item => StreamStep::Again,
        StreamPoll::Finished => StreamStep::Remove,
    }
}

/// Decides what to do with a stream that was polled.
pub fn stream_step(poll: StreamPoll) -> (r: StreamStep)
    ensures
        r == step_of(poll),
{
    match poll {
        StreamPoll::Pending => StreamStep::Next,
        StreamPoll::Item => StreamStep::Again,
        StreamPoll::Finished => StreamStep::Remove,
    }
}

/// One poll of all streams, as it is seen in contracts.
#[verifier::ext_equal]
pub ghost struct RoundView {
    /// The streams that are still to be polled, the next one last.
    pub waiting: Seq<u128>,
    /// The streams that have finished.
    pub finished: Seq<u128>,
}

impl RoundView {
    /// The round after the next stream was polled.
    pub open spec fn polled(self, poll: StreamPoll) -> RoundView {
        match step_of(poll) {
            StreamStep::Again => self,
            StreamStep::Next => RoundView { waiting: self.waiting.drop_last(), ..self },
            StreamStep::Remove => RoundView {
                waiting: self.waiting.drop_last(),
                finished: self.finished.push(self.waiting.last()),
            },
        }
    }

    /// The round after as many polls as there are answers, or as are needed.
    pub open spec fn after(self, answers: Seq<StreamPoll>) -> RoundView
        decreases answers.len(),
    {
        if answers.len() == 0 || self.waiting.len() == 0 {
            self
        } else {
            self.polled(answers[0]).after(answers.skip(1))
        }
    }

    /// Which streams are polled on the way, each with its answer.
    pub open spec fn polls(self, answers: Seq<StreamPoll>) -> Seq<(u128, StreamPoll)>
        decreases answers.len(),
    {
        if answers.len() == 0 || self.waiting.len() == 0 {
            Seq::empty()
        } else {
            seq![(self.waiting.last(), answers[0])] + self.polled(answers[0]).polls(answers.skip(1))
        }
    }
}

/// The answers of one stream, in order.
pub open spec fn answers_of(polls: Seq<(u128, StreamPoll)>, id: u128) -> Seq<StreamPoll>
    decreases polls.len(),
{
    if polls.len() == 0 {
        Seq::empty()
    } else if polls[0].0 == id {
        seq![polls[0].1] + answers_of(polls.skip(1), id)
    } else {
        answers_of(polls.skip(1), id)
    }
}

/// One poll of all streams.
pub struct PollRound {
    /// The streams that are still to be polled, the next one last.
    pub waiting: Vec<u128>,
    /// The streams that have finished.
    pub finished: Vec<u128>,
}

impl PollRound {
    /// How far the round is.
    pub open spec fn view(self) -> RoundView {
        RoundView { waiting: self.waiting@, finished: self.finished@ }
    }

    /// The stream that is to be polled next, if there is one.
    pub fn next(&self) -> (r: Option<u128>)
        ensures
            r == if self@.waiting.len() == 0 {
                None
            } else {
                Some(self@.waiting.last())
            },
    {
        if self.waiting.len() == 0 {
            None
        } else {
            Some(self.waiting[self.waiting.len() - 1])
        }
    }

    /// The next stream was polled. Returns what is to be done with it.
    pub fn polled(&mut self, poll: StreamPoll) -> (r: StreamStep)
        requires
            old(self)@.waiting.len() > 0,
        ensures
            final(self)@ == old(self)@.polled(poll),
            r == step_of(poll),
    {
        let step = stream_step(poll);
        match step {
            StreamStep::Again => {},
            StreamStep::Next => {
                let _ = self.waiting.pop();
            },
            StreamStep::Remove => {
                if let Some(stream_id) = self.waiting.pop() {
                    self.finished.push(stream_id);
                }
            },
        }
        proof {
            assert(self@ =~= old(self)@.polled(poll));
        }
        step
    }
}

/// Hands out the numbers of new streams.
pub struct StreamRegistration {
    pub next_stream_id: u128,
}

/// Collection of streams, by their numbers.
pub struct StreamHandler<S> {
    pub streams: HashMap<u128, S>,
}

impl StreamRegistration {
    /// The registration after another stream, and the number of that.
    pub open spec fn registered(self) -> (StreamRegistration, u128) {
        (
            StreamRegistration { next_stream_id: (self.next_stream_id + 1) as u128 },
            self.next_stream_id,
        )
    }

    /// The number of another stream.
    ///
    /// There are at most as many streams as there are numbers.
    pub fn register(&mut self) -> (r: u128)
        requires
            old(self).next_stream_id < u128::MAX,
        ensures
            r == old(self).next_stream_id,
            final(self).next_stream_id == r + 1,
            (*final(self), r) == old(self).registered(),
    {
        let stream_id: u128 = self.next_stream_id;
        self.next_stream_id = stream_id + 1;
        stream_id
    }
}

/// The streams without those in `finished`.
pub open spec fn without_streams<S>(streams: Map<u128, S>, finished: Seq<u128>) -> Map<u128, S> {
    Map::new(|id: u128| streams.dom().contains(id) && !finished.contains(id), |id: u128| streams[id])
}

impl<S> StreamHandler<S> {
    /// The streams, by their numbers.
    pub open spec fn view(self) -> Map<u128, S> {
        self.streams@
    }

    /// No streams, and the numbers for new ones.
    pub fn new() -> (r: (StreamHandler<S>, StreamRegistration))
        ensures
            r.0@ == Map::<u128, S>::empty(),
            r.1.next_stream_id == 0,
    {
        (StreamHandler { streams: HashMap::new() }, StreamRegistration { next_stream_id: 0 })
    }

    /// Adds a stream that was registered.
    pub fn insert(&mut self, stream_id: u128, stream: S)
        ensures
            final(self)@ == old(self)@.insert(stream_id, stream),
    {
        self.streams.insert(stream_id, stream);
    }

    /// Begins to poll all streams, each of them once.
    pub fn start_poll(&self) -> (r: PollRound)
        ensures
            r@.waiting.no_duplicates(),
            r@.waiting.to_set() == self@.dom(),
            r@.finished == Seq::<u128>::empty(),
    {
        PollRound { waiting: map_keys(&self.streams), finished: Vec::new() }
    }

    /// All streams were polled. Removes those that have finished.
    pub fn polled(&mut self, finished: &Vec<u128>)
        ensures
            final(self)@ == without_streams(old(self)@, finished@),
    {
        let mut i: usize = 0;
        proof {
            assert(self@ =~= without_streams(old(self)@, finished@.take(0)));
        }
        while i < finished.len()
            invariant
                i <= finished@.len(),
                self@ == without_streams(old(self)@, finished@.take(i as int)),
            decreases finished@.len() - i,
        {
            let stream_id: u128 = finished[i];
            let ghost before = self@;
            let _ = self.streams.remove(&stream_id);
            proof {
                let a = finished@.take(i as int);
                let b = finished@.take(i + 1);
                assert(b =~= a.push(stream_id));
                assert forall|id: u128| b.contains(id) <==> a.contains(id) || id == stream_id by {
                    if a.contains(id) {
                        let k = choose|k: int| 0 <= k < a.len() && a[k] == id;
                        assert(b[k] == id);
                    }
                    if id == stream_id {
                        assert(b[i as int] == id);
                    }
                }
                assert(self@ =~= before.remove(stream_id));
                assert(self@ =~= without_streams(old(self)@, b));
            }
            i = i + 1;
        }
        proof {
            assert(finished@.take(i as int) =~= finished@);
        }
    }
}

/// What a stream that is to be polled, or is not, answers in the rest of a round.
proof fn lemma_round(round: RoundView, answers: Seq<StreamPoll>, id: u128)
    requires
        round.waiting.no_duplicates(),
        round.after(answers).waiting.len() == 0,
    ensures
        ({
            let own = answers_of(round.polls(answers), id);
            let finished = round.after(answers).finished;
            if round.waiting.contains(id) {
                &&& own.len() > 0
                &&& forall|i: int| 0 <= i < own.len() - 1 ==> own[i] == StreamPoll::Item
                &&& own.last() != StreamPoll::Item
                &&& finished.contains(id) <==> round.finished.contains(id) || own.last()
                    == StreamPoll::Finished
            } else {
                own.len() == 0 && (finished.contains(id) <==> round.finished.contains(id))
            }
        }),
    decreases answers.len(),
{
    if answers.len() > 0 && round.waiting.len() > 0 {
        let last = round.waiting.last();
        let next = round.polled(answers[0]);
        let front = round.waiting.drop_last();
        assert forall|d: u128| round.waiting.contains(d) <==> front.contains(d) || d == last by {
            if front.contains(d) {
                let k = choose|k: int| 0 <= k < front.len() && front[k] == d;
                assert(round.waiting[k] == d);
            }
            if round.waiting.contains(d) && d != last {
                let k = choose|k: int| 0 <= k < round.waiting.len() && round.waiting[k] == d;
                assert(front[k] == d);
            }
            assert(round.waiting[round.waiting.len() - 1] == last);
        }
        assert(!front.contains(last)) by {
            if front.contains(last) {
                let k = choose|k: int| 0 <= k < front.len() && front[k] == last;
                assert(round.waiting[k] == round.waiting[round.waiting.len() - 1]);
            }
        }
        let pushed = round.finished.push(last);
        assert(pushed.contains(id) <==> round.finished.contains(id) || id == last) by {
            if round.finished.contains(id) {
                let k = choose|k: int| 0 <= k < round.finished.len() && round.finished[k] == id;
                assert(pushed[k] == id);
            }
            assert(pushed[round.finished.len() as int] == last);
        }
        lemma_round(next, answers.skip(1), id);
        let polls = round.polls(answers);
        let rest = answers_of(next.polls(answers.skip(1)), id);
        assert(polls.skip(1) =~= next.polls(answers.skip(1)));
        let own = answers_of(polls, id);
        if id == last {
            assert(own =~= seq![answers[0]] + rest);
            if answers[0] == StreamPoll::Item {
                assert(own.last() == rest.last());
                assert forall|i: int| 0 <= i < own.len() - 1 implies own[i] == StreamPoll::Item by {
                    if i > 0 {
                        assert(own[i] == rest[i - 1]);
                    }
                }
            } else {
                assert(own =~= seq![answers[0]]);
            }
        }
    }
}

/// In one poll of all streams, every stream is polled as long as it gives items, and once more. All
/// of its items are handled in the order in which it gives them. If it ends, its handler is told so
/// exactly once, and it is removed; otherwise it stays.
pub proof fn law_poll_of_all_streams<S>(
    streams: Map<u128, S>,
    round: RoundView,
    answers: Seq<StreamPoll>,
    id: u128,
)
    requires
        round.waiting.no_duplicates(),
        round.waiting.to_set() == streams.dom(),
        round.finished == Seq::<u128>::empty(),
        round.after(answers).waiting.len() == 0,
    ensures
        ({
            let own = answers_of(round.polls(answers), id);
            let steps = own.map_values(|poll: StreamPoll| step_of(poll));
            let left = without_streams(streams, round.after(answers).finished);
            if streams.dom().contains(id) {
                &&& own.len() > 0
                &&& forall|i: int| 0 <= i < own.len() - 1 ==> #[trigger] steps[i] == StreamStep::Again
                &&& steps.last() == if own.last() == StreamPoll::Finished {
                    StreamStep::Remove
                } else {
                    StreamStep::Next
                }
                &&& left.dom().contains(id) <==> own.last() == StreamPoll::Pending
                &&& left.dom().contains(id) ==> left[id] == streams[id]
            } else {
                own.len() == 0 && !left.dom().contains(id)
            }
        }),
{
    lemma_round(round, answers, id);
    assert(round.waiting.contains(id) <==> streams.dom().contains(id)) by {
        assert(round.waiting.to_set().contains(id) <==> round.waiting.contains(id));
    }
}

/// Every stream gets a larger number than all before it, so that no two streams have the same.
pub proof fn law_stream_numbers_grow(registration: StreamRegistration)
    requires
        registration.next_stream_id < u128::MAX,
    ensures
        ({
            let (after, id) = registration.registered();
            id < after.next_stream_id && after.registered().1 > id && registration.next_stream_id
                <= id
        }),
{
}

/// What happens to the streams of a handler.
pub ghost enum StreamChange<S> {
    /// A stream was registered under a number.
    Registered(u128, S),
    /// All streams were polled, and these have finished.
    Polled(Seq<u128>),
}

/// The streams after the changes.
pub open spec fn after_changes<S>(
    streams: Map<u128, S>,
    changes: Seq<StreamChange<S>>,
) -> Map<u128, S>
    decreases changes.len(),
{
    if changes.len() == 0 {
        streams
    } else {
        let before = after_changes(streams, changes.drop_last());
        match changes.last() {
            StreamChange::Registered(id, stream) => before.insert(id, stream),
            StreamChange::Polled(finished) => without_streams(before, finished),
        }
    }
}

/// A stream that has ended is never polled again: later streams have later numbers, so that no
/// later poll is for it, whatever was registered and polled since.
pub proof fn law_ended_stream_is_gone<S>(
    streams: Map<u128, S>,
    finished: Seq<u128>,
    id: u128,
    next_stream_id: u128,
    changes: Seq<StreamChange<S>>,
    round: RoundView,
    answers: Seq<StreamPoll>,
)
    requires
        finished.contains(id),
        id < next_stream_id,
        forall|i: int|
            0 <= i < changes.len() ==> (#[trigger] changes[i] matches StreamChange::Registered(n, _)
                ==> next_stream_id <= n),
        round.waiting.no_duplicates(),
        round.waiting.to_set() == after_changes(without_streams(streams, finished), changes).dom(),
        round.after(answers).waiting.len() == 0,
    ensures
        answers_of(round.polls(answers), id).len() == 0,
{
    lemma_stays_gone(without_streams(streams, finished), changes, id);
    assert(round.waiting.to_set().contains(id) <==> round.waiting.contains(id));
    lemma_round(round, answers, id);
}

proof fn lemma_stays_gone<S>(streams: Map<u128, S>, changes: Seq<StreamChange<S>>, id: u128)
    requires
        !streams.dom().contains(id),
        forall|i: int|
            0 <= i < changes.len() ==> (#[trigger] changes[i] matches StreamChange::Registered(n, _)
                ==> id != n),
    ensures
        !after_changes(streams, changes).dom().contains(id),
    decreases changes.len(),
{
    if changes.len() > 0 {
        let front = changes.drop_last();
        assert forall|i: int| 0 <= i < front.len() implies (
        #[trigger] front[i] matches StreamChange::Registered(n, _) ==> id != n) by {
            assert(front[i] == changes[i]);
        }
        lemma_stays_gone(streams, front, id);
        assert(changes[changes.len() - 1] == changes.last());
    }
}

} // verus!

//! Results of broadcasting a message to a group of actors.

use vstd::prelude::*;
use crate::errors::{ActorSendError, RuntimeError};
use crate::group::ActorRef;
use crate::node::{ActorId, ActorKey};

verus! {

/// Outcome of an `ask` to a single member in a broadcast group.
#[derive(Debug)]
pub enum BroadcastReceipt<R> {
    /// The actor replied successfully.
    Replied {
        /// Identity of the actor that replied.
        actor_id: ActorId,
        /// The reply value.
        reply: R,
    },
    /// The actor did not reply within the timeout.
    Timeout {
        /// Identity of the actor that timed out.
        actor_id: ActorId,
    },
    /// Dispatching the message failed (actor stopped, mailbox full, etc.).
    SendError {
        /// Identity of the actor that failed.
        actor_id: ActorId,
        /// The send error.
        error: ActorSendError,
    },
    /// The actor processed the message but the reply resolved to an error.
    ReplyError {
        /// Identity of the actor that failed.
        actor_id: ActorId,
        /// The runtime error from the reply channel.
        error: RuntimeError,
    },
}

/// Outcome of a `tell` to a single member in a broadcast group.
#[derive(Debug)]
pub struct TellOutcome {
    /// Identity of the target actor.
    pub actor_id: ActorId,
    /// `Ok(())` if the message was enqueued, `Err` otherwise.
    pub result: Result<(), ActorSendError>,
}

/// Number of outcomes among the first `n` that were accepted.
pub open spec fn accepted_count(outcomes: Seq<TellOutcome>, n: int) -> nat
    decreases n,
{
    if n <= 0 {
        0
    } else {
        accepted_count(outcomes, n - 1) + if outcomes[n - 1].result is Ok { 1nat } else { 0nat }
    }
}

/// Aggregated result of a broadcast `tell`.
#[derive(Debug)]
pub struct BroadcastTellResult {
    /// Per-actor outcomes, in the same order as the group members.
    pub outcomes: Vec<TellOutcome>,
}

/// At most `n` of the first `n` outcomes are accepted.
pub proof fn lemma_accepted_le(outcomes: Seq<TellOutcome>, n: int)
    requires
        n >= 0,
    ensures
        accepted_count(outcomes, n) <= n,
    decreases n,
{
    if n > 0 {
        lemma_accepted_le(outcomes, n - 1);
    }
}

impl BroadcastTellResult {
    /// Number of actors that accepted the message.
    pub fn succeeded(&self) -> (n: usize)
        ensures
            n == accepted_count(self.outcomes@, self.outcomes@.len() as int),
    {
        let mut count: usize = 0;
        let mut i: usize = 0;
        while i < self.outcomes.len()
            invariant
                i <= self.outcomes@.len(),
                count == accepted_count(self.outcomes@, i as int),
            decreases self.outcomes@.len() - i,
        {
            proof {
                lemma_accepted_le(self.outcomes@, i as int);
            }
            if self.outcomes[i].result.is_ok() {
                count = count + 1;
            }
            i = i + 1;
        }
        count
    }

    /// Number of actors that rejected the message.
    pub fn failed(&self) -> (n: usize)
        ensures
            n == self.outcomes@.len() - accepted_count(self.outcomes@, self.outcomes@.len() as int),
    {
        let ok = self.succeeded();
        proof {
            lemma_accepted_le(self.outcomes@, self.outcomes@.len() as int);
        }
        self.outcomes.len() - ok
    }
}

/// Every outcome is counted once: accepted and rejected add up to the group.
pub proof fn law_outcomes_partition(outcomes: Seq<TellOutcome>)
    ensures
        accepted_count(outcomes, outcomes.len() as int) + (outcomes.len() - accepted_count(outcomes, outcomes.len() as int))
            == outcomes.len(),
        accepted_count(outcomes, outcomes.len() as int) <= outcomes.len(),
{
    lemma_accepted_le(outcomes, outcomes.len() as int);
}

/// Whether a member accepted the message.
pub open spec fn is_accepted(o: TellOutcome) -> bool {
    o.result is Ok
}

/// The accepted count of a prefix is the number of its outcomes that are
/// `Ok`.
proof fn lemma_accepted_is_filter(outcomes: Seq<TellOutcome>, n: int)
    requires
        0 <= n <= outcomes.len(),
    ensures
        accepted_count(outcomes, n) == outcomes.take(n).filter(|o: TellOutcome| is_accepted(o)).len(),
    decreases n,
{
    reveal(Seq::filter);
    if n > 0 {
        lemma_accepted_is_filter(outcomes, n - 1);
        assert(outcomes.take(n).drop_last() =~= outcomes.take(n - 1));
        assert(outcomes.take(n).last() == outcomes[n - 1]);
    } else {
        assert(outcomes.take(0) =~= Seq::<TellOutcome>::empty());
    }
}

/// The members that accepted a broadcast are exactly the outcomes that are
/// `Ok`, wherever they stand: the count is the length of the `Ok` outcomes,
/// and one more outcome adds one exactly when it is `Ok`.
pub proof fn law_accepted_counts_ok_outcomes(outcomes: Seq<TellOutcome>, o: TellOutcome)
    ensures
        accepted_count(outcomes, outcomes.len() as int) == outcomes.filter(|x: TellOutcome| is_accepted(x)).len(),
        accepted_count(outcomes.push(o), outcomes.len() as int + 1)
            == accepted_count(outcomes, outcomes.len() as int) + if o.result is Ok { 1nat } else { 0nat },
{
    lemma_accepted_is_filter(outcomes, outcomes.len() as int);
    assert(outcomes.take(outcomes.len() as int) =~= outcomes);
    let t = outcomes.push(o);
    lemma_accepted_is_filter(t, t.len() as int);
    assert(t.take(t.len() as int) =~= t);
    reveal(Seq::filter);
    assert(t.drop_last() =~= outcomes);
}

/// What happened to one member's ask: the send failed, no reply came
/// within the timeout, or the reply (a value or an error) arrived.
#[derive(Debug)]
pub enum AskAttempt<R> {
    /// The ask could not be sent.
    SendFailed(ActorSendError),
    /// The timeout fired first (the member's request is then cancelled).
    TimedOut,
    /// The reply arrived.
    Answered(Result<R, RuntimeError>),
}

/// The receipt of one member's ask.
pub fn receipt_for<R>(actor_id: ActorId, attempt: AskAttempt<R>) -> (r: BroadcastReceipt<R>)
    ensures
        (match attempt {
            AskAttempt::SendFailed(e) => r == BroadcastReceipt::<R>::SendError { actor_id, error: e },
            AskAttempt::TimedOut => r == BroadcastReceipt::<R>::Timeout { actor_id },
            AskAttempt::Answered(Ok(v)) => r == BroadcastReceipt::<R>::Replied { actor_id, reply: v },
            AskAttempt::Answered(Err(e)) => r == BroadcastReceipt::<R>::ReplyError { actor_id, error: e },
        }),
{
    match attempt {
        AskAttempt::SendFailed(e) => BroadcastReceipt::SendError { actor_id, error: e },
        AskAttempt::TimedOut => BroadcastReceipt::Timeout { actor_id },
        AskAttempt::Answered(Ok(v)) => BroadcastReceipt::Replied { actor_id, reply: v },
        AskAttempt::Answered(Err(e)) => BroadcastReceipt::ReplyError { actor_id, error: e },
    }
}

/// Position of the first member whose identity is `k`, if any.
pub open spec fn first_with_id<R: ActorRef>(members: Seq<R>, k: ActorKey) -> Option<int>
    decreases members.len(),
{
    if members.len() == 0 {
        None
    } else if members[0].actor_id()@ == k {
        Some(0)
    } else {
        match first_with_id(members.drop_first(), k) {
            Some(i) => Some(i + 1),
            None => None,
        }
    }
}

/// The members after the one at `i` is taken out and the last member moved
/// into its place.
pub open spec fn swap_removed<R>(members: Seq<R>, i: int) -> Seq<R> {
    members.update(i, members.last()).drop_last()
}

/// What telling every member gave: one outcome per member, in member
/// order, each naming the member and holding what `send` returned for it.
pub open spec fn told_all<R: ActorRef, F: Fn(&R) -> Result<(), ActorSendError>>(
    members: Seq<R>,
    send: F,
    outcomes: Seq<TellOutcome>,
) -> bool {
    &&& outcomes.len() == members.len()
    &&& forall|i: int| 0 <= i < members.len() ==> (#[trigger] outcomes[i]).actor_id@ == members[i].actor_id()@
        && call_ensures(send, (&members[i],), outcomes[i].result)
}

/// An owned group of actor references that a message goes to together.
///
/// Members keep the order they were added in, except that removing one
/// moves the last member into its place.
pub struct BroadcastRef<R: ActorRef> {
    refs: Vec<R>,
}

impl<R: ActorRef> BroadcastRef<R> {
    /// The members, in order.
    pub closed spec fn members(&self) -> Seq<R> {
        self.refs@
    }

    /// A group of the given references (possibly none).
    pub fn new(refs: Vec<R>) -> (b: Self)
        ensures
            b.members() == refs@,
    {
        BroadcastRef { refs }
    }

    /// Number of members.
    pub fn len(&self) -> (n: usize)
        ensures
            n == self.members().len(),
    {
        self.refs.len()
    }

    /// Whether the group has no members.
    pub fn is_empty(&self) -> (r: bool)
        ensures
            r == (self.members().len() == 0),
    {
        self.refs.len() == 0
    }

    /// Add a member at the end.
    pub fn add(&mut self, actor_ref: R)
        ensures
            final(self).members() == old(self).members().push(actor_ref),
    {
        self.refs.push(actor_ref);
    }

    /// Remove the first member with the given identity, moving the last
    /// member into its place; `None` when no member has it.
    pub fn remove(&mut self, actor_id: &ActorId) -> (r: Option<R>)
        ensures
            (match first_with_id(old(self).members(), actor_id@) {
                Some(i) => r == Some(old(self).members()[i]) && final(self).members() == swap_removed(old(self).members(), i),
                None => r is None && final(self).members() == old(self).members(),
            }),
    {
        let ghost ms = self.refs@;
        assert(ms.subrange(0, ms.len() as int) =~= ms);
        let mut i: usize = 0;
        while i < self.refs.len()
            invariant
                self.refs@ == ms,
                ms == old(self).refs@,
                i <= ms.len(),
                first_with_id(ms, actor_id@) == (match first_with_id(ms.subrange(i as int, ms.len() as int), actor_id@) {
                    Some(j) => Some(j + i),
                    None => None,
                }),
            decreases ms.len() - i,
        {
            let id = self.refs[i].id();
            proof {
                let rest = ms.subrange(i as int, ms.len() as int);
                assert(rest[0] == ms[i as int]);
                assert(rest.drop_first() =~= ms.subrange(i + 1, ms.len() as int));
            }
            if id.same_as(actor_id) {
                proof {
                    let rest = ms.subrange(i as int, ms.len() as int);
                    assert(rest[0].actor_id()@ == actor_id@);
                    assert(first_with_id(rest, actor_id@) == Some(0int));
                    assert(first_with_id(ms, actor_id@) == Some(i as int));
                }
                return Some(self.refs.swap_remove(i));
            }
            i = i + 1;
        }
        None
    }

    /// Tell every member: `send` delivers the message to one member (the
    /// runtime's `tell`), and is called once per member, in order.
    pub fn tell<F: Fn(&R) -> Result<(), ActorSendError>>(&self, send: F) -> (r: BroadcastTellResult)
        requires
            forall|i: int| 0 <= i < self.members().len() ==> call_requires(send, (#[trigger] &self.members()[i],)),
        ensures
            told_all(self.members(), send, r.outcomes@),
    {
        let mut outcomes: Vec<TellOutcome> = Vec::new();
        let mut i: usize = 0;
        while i < self.refs.len()
            invariant
                i <= self.refs@.len(),
                outcomes@.len() == i,
                forall|j: int| 0 <= j < self.members().len() ==> call_requires(send, (#[trigger] &self.members()[j],)),
                forall|j: int| 0 <= j < i ==> (#[trigger] outcomes@[j]).actor_id@ == self.refs@[j].actor_id()@
                    && call_ensures(send, (&self.refs@[j],), outcomes@[j].result),
            decreases self.refs@.len() - i,
        {
            let member = &self.refs[i];
            assert(call_requires(send, (&self.members()[i as int],)));
            assert(*member == self.members()[i as int]);
            let result = send(member);
            outcomes.push(TellOutcome { actor_id: member.id(), result });
            i = i + 1;
        }
        BroadcastTellResult { outcomes }
    }
}

} // verus!

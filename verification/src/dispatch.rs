//! Delivery of one request: the recipients are tried one at a time, in the
//! order of the request, and each lands in exactly one of two lists.
//!
//! The relay does not talk to the provider itself. [`Dispatch`] says which
//! call is due next and takes back what came of it; the caller performs the
//! call in between.

use vstd::prelude::*;

use crate::outbound::telegram_send_request;
use crate::outbound::telegram_send_result;
use crate::outbound::send_message_url_spec;
use crate::outbound::OutboundCall;
use crate::outbound::SendOutcome;
use crate::request::MessageData;
use crate::request::SendMessageResponse;

verus! {

/// One recipient together with what came of the attempt to reach it.
pub struct Attempt {
    pub recipient: i64,
    pub outcome: SendOutcome,
}

/// The attempts made so far: the `k`-th outcome belongs to the `k`-th
/// recipient of the request.
pub open spec fn attempts(recipients: Seq<i64>, outcomes: Seq<SendOutcome>) -> Seq<Attempt>
    recommends
        outcomes.len() <= recipients.len(),
{
    Seq::new(
        outcomes.len(),
        |k: int| Attempt { recipient: recipients[k], outcome: outcomes[k] },
    )
}

/// The recipients that were reached, in the order they were tried.
pub open spec fn delivered(recipients: Seq<i64>, outcomes: Seq<SendOutcome>) -> Seq<i64>
    recommends
        outcomes.len() <= recipients.len(),
{
    attempts(recipients, outcomes).filter(|a: Attempt| a.outcome.is_delivered()).map_values(
        |a: Attempt| a.recipient,
    )
}

/// The recipients that were not reached, in the order they were tried.
pub open spec fn failed(recipients: Seq<i64>, outcomes: Seq<SendOutcome>) -> Seq<i64>
    recommends
        outcomes.len() <= recipients.len(),
{
    attempts(recipients, outcomes).filter(|a: Attempt| !a.outcome.is_delivered()).map_values(
        |a: Attempt| a.recipient,
    )
}

/// Before anything was tried both lists are empty.
pub proof fn lemma_nothing_tried(recipients: Seq<i64>)
    ensures
        delivered(recipients, Seq::empty()) == Seq::<i64>::empty(),
        failed(recipients, Seq::empty()) == Seq::<i64>::empty(),
{
    reveal(Seq::filter);
}

/// One more attempt appends its recipient to the list that its outcome
/// selects and leaves the other list as it was.
pub proof fn lemma_one_more_attempt(
    recipients: Seq<i64>,
    outcomes: Seq<SendOutcome>,
    outcome: SendOutcome,
)
    ensures
        delivered(recipients, outcomes.push(outcome)) == if outcome.is_delivered() {
            delivered(recipients, outcomes).push(recipients[outcomes.len() as int])
        } else {
            delivered(recipients, outcomes)
        },
        failed(recipients, outcomes.push(outcome)) == if outcome.is_delivered() {
            failed(recipients, outcomes)
        } else {
            failed(recipients, outcomes).push(recipients[outcomes.len() as int])
        },
{
    let before = attempts(recipients, outcomes);
    let last = Attempt { recipient: recipients[outcomes.len() as int], outcome };
    assert(attempts(recipients, outcomes.push(outcome)) =~= before.push(last));
    let reached = |a: Attempt| a.outcome.is_delivered();
    let missed = |a: Attempt| !a.outcome.is_delivered();
    let recipient_of = |a: Attempt| a.recipient;
    before.lemma_filter_push(last, reached);
    before.lemma_filter_push(last, missed);
}

/// Every attempt is counted once: the two lists together are as long as the
/// list of outcomes.
pub proof fn lemma_every_attempt_counted(recipients: Seq<i64>, outcomes: Seq<SendOutcome>)
    ensures
        delivered(recipients, outcomes).len() + failed(recipients, outcomes).len()
            == outcomes.len(),
    decreases outcomes.len(),
{
    if outcomes.len() == 0 {
        lemma_nothing_tried(recipients);
    } else {
        let earlier = outcomes.drop_last();
        assert(outcomes =~= earlier.push(outcomes.last()));
        lemma_every_attempt_counted(recipients, earlier);
        lemma_one_more_attempt(recipients, earlier, outcomes.last());
    }
}

/// A request without recipients is answered with two empty lists.
pub proof fn lemma_no_recipients(recipients: Seq<i64>, outcomes: Seq<SendOutcome>)
    requires
        recipients.len() == 0,
        outcomes.len() <= recipients.len(),
    ensures
        delivered(recipients, outcomes) == Seq::<i64>::empty(),
        failed(recipients, outcomes) == Seq::<i64>::empty(),
{
    lemma_nothing_tried(recipients);
}

/// Whether an attempt on `id` with the given success is among the attempts.
pub open spec fn tried_with(
    recipients: Seq<i64>,
    outcomes: Seq<SendOutcome>,
    id: i64,
    reached: bool,
) -> bool {
    exists|k: int|
        0 <= k < outcomes.len() && recipients[k] == id
            && #[trigger] outcomes[k].is_delivered() == reached
}

/// An identifier is listed as reached exactly when some attempt on it was
/// delivered, and as missed exactly when some attempt on it was not.
pub proof fn lemma_listed_iff_tried(recipients: Seq<i64>, outcomes: Seq<SendOutcome>, id: i64)
    ensures
        delivered(recipients, outcomes).contains(id) <==> tried_with(recipients, outcomes, id, true),
        failed(recipients, outcomes).contains(id) <==> tried_with(recipients, outcomes, id, false),
    decreases outcomes.len(),
{
    if outcomes.len() == 0 {
        lemma_nothing_tried(recipients);
    } else {
        let earlier = outcomes.drop_last();
        let last = outcomes.len() - 1;
        assert(outcomes =~= earlier.push(outcomes[last]));
        lemma_listed_iff_tried(recipients, earlier, id);
        lemma_one_more_attempt(recipients, earlier, outcomes[last]);
        lemma_pushed_contains(delivered(recipients, earlier), recipients[last], id);
        lemma_pushed_contains(failed(recipients, earlier), recipients[last], id);
    }
}

proof fn lemma_pushed_contains(list: Seq<i64>, pushed: i64, id: i64)
    ensures
        list.push(pushed).contains(id) <==> list.contains(id) || pushed == id,
{
    if list.contains(id) {
        let k = choose|k: int| 0 <= k < list.len() && list[k] == id;
        assert(list.push(pushed)[k] == id);
    }
    if pushed == id {
        assert(list.push(pushed)[list.len() as int] == id);
    }
}

/// The recipient of a delivered attempt is listed as reached and, unless
/// another attempt on the same identifier failed, not as missed.
pub proof fn lemma_reached_is_listed(recipients: Seq<i64>, outcomes: Seq<SendOutcome>, k: int)
    requires
        0 <= k < outcomes.len(),
        outcomes[k].is_delivered(),
        !tried_with(recipients, outcomes, recipients[k], false),
    ensures
        delivered(recipients, outcomes).contains(recipients[k]),
        !failed(recipients, outcomes).contains(recipients[k]),
{
    lemma_listed_iff_tried(recipients, outcomes, recipients[k]);
}

/// The recipient of a failed attempt is listed as missed and, unless
/// another attempt on the same identifier was delivered, not as reached.
pub proof fn lemma_missed_is_listed(recipients: Seq<i64>, outcomes: Seq<SendOutcome>, k: int)
    requires
        0 <= k < outcomes.len(),
        !outcomes[k].is_delivered(),
        !tried_with(recipients, outcomes, recipients[k], true),
    ensures
        failed(recipients, outcomes).contains(recipients[k]),
        !delivered(recipients, outcomes).contains(recipients[k]),
{
    lemma_listed_iff_tried(recipients, outcomes, recipients[k]);
}

/// The two lists share out the recipients tried: each identifier occurs in
/// them, taken together, as often as it was tried.
pub proof fn lemma_lists_share_out_recipients(recipients: Seq<i64>, outcomes: Seq<SendOutcome>)
    requires
        outcomes.len() <= recipients.len(),
    ensures
        delivered(recipients, outcomes).to_multiset().add(
            failed(recipients, outcomes).to_multiset(),
        ) == recipients.take(outcomes.len() as int).to_multiset(),
    decreases outcomes.len(),
{
    if outcomes.len() == 0 {
        assert(outcomes =~= Seq::empty());
        lemma_nothing_tried(recipients);
        assert(recipients.take(0) =~= Seq::empty());
        assert(Seq::<i64>::empty().to_multiset().add(Seq::<i64>::empty().to_multiset())
            =~= Seq::<i64>::empty().to_multiset()) by {
            Seq::<i64>::empty().to_multiset_ensures();
        }
    } else {
        let earlier = outcomes.drop_last();
        let last = outcomes.len() - 1;
        assert(outcomes =~= earlier.push(outcomes[last]));
        lemma_lists_share_out_recipients(recipients, earlier);
        lemma_one_more_attempt(recipients, earlier, outcomes[last]);
        assert(recipients.take(outcomes.len() as int) =~= recipients.take(last).push(
            recipients[last],
        ));
        recipients.take(last).to_multiset_ensures();
        delivered(recipients, earlier).to_multiset_ensures();
        failed(recipients, earlier).to_multiset_ensures();
    }
}

/// When every attempt was delivered, the reached are the recipients tried,
/// in the order of the request, and nobody was missed.
pub proof fn lemma_all_delivered(recipients: Seq<i64>, outcomes: Seq<SendOutcome>)
    requires
        outcomes.len() <= recipients.len(),
        forall|k: int| 0 <= k < outcomes.len() ==> #[trigger] outcomes[k].is_delivered(),
    ensures
        delivered(recipients, outcomes) == recipients.take(outcomes.len() as int),
        failed(recipients, outcomes) == Seq::<i64>::empty(),
        outcomes.len() == recipients.len() ==> delivered(recipients, outcomes) == recipients,
    decreases outcomes.len(),
{
    if outcomes.len() == 0 {
        lemma_nothing_tried(recipients);
    } else {
        let earlier = outcomes.drop_last();
        assert(outcomes =~= earlier.push(outcomes.last()));
        lemma_all_delivered(recipients, earlier);
        lemma_one_more_attempt(recipients, earlier, outcomes.last());
    }
}

/// When every attempt failed, the missed are the recipients tried, in the
/// order of the request, and nobody was reached.
pub proof fn lemma_all_failed(recipients: Seq<i64>, outcomes: Seq<SendOutcome>)
    requires
        outcomes.len() <= recipients.len(),
        forall|k: int| 0 <= k < outcomes.len() ==> !#[trigger] outcomes[k].is_delivered(),
    ensures
        failed(recipients, outcomes) == recipients.take(outcomes.len() as int),
        delivered(recipients, outcomes) == Seq::<i64>::empty(),
        outcomes.len() == recipients.len() ==> failed(recipients, outcomes) == recipients,
    decreases outcomes.len(),
{
    if outcomes.len() == 0 {
        lemma_nothing_tried(recipients);
    } else {
        let earlier = outcomes.drop_last();
        assert(outcomes =~= earlier.push(outcomes.last()));
        lemma_all_failed(recipients, earlier);
        lemma_one_more_attempt(recipients, earlier, outcomes.last());
    }
}

/// The delivery of one request, part way through.
///
/// It knows the request and what came of the attempts made so far. The
/// caller asks for the next call, performs it, and reports the outcome;
/// when no call is left the two lists are the response.
pub struct Dispatch<'r> {
    request: MessageData<'r>,
    successful: Vec<i64>,
    errors: Vec<i64>,
    outcomes: Ghost<Seq<SendOutcome>>,
}

impl<'r> Dispatch<'r> {
    /// The two lists are always those that the attempts made so far give,
    /// and no more attempts are on record than the request has recipients.
    #[verifier::type_invariant]
    spec fn consistent(self) -> bool {
        &&& self.outcomes@.len() <= self.request.user_list@.len()
        &&& self.successful@ == delivered(self.request.user_list@, self.outcomes@)
        &&& self.errors@ == failed(self.request.user_list@, self.outcomes@)
    }

    /// The text to deliver.
    pub closed spec fn message(self) -> Seq<char> {
        self.request.message@
    }

    /// The dialect the provider is asked to parse the text with.
    pub closed spec fn parse_mode(self) -> Seq<char> {
        self.request.parse_mode@
    }

    /// The recipients of the request, in its order.
    pub closed spec fn recipients(self) -> Seq<i64> {
        self.request.user_list@
    }

    /// What came of the attempts made so far, oldest first.
    pub closed spec fn outcomes(self) -> Seq<SendOutcome> {
        self.outcomes@
    }

    /// Starts the delivery of `request`: nothing has been tried yet.
    pub fn new(request: MessageData<'r>) -> (dispatch: Self)
        ensures
            dispatch.message() == request.message@,
            dispatch.parse_mode() == request.parse_mode@,
            dispatch.recipients() == request.user_list@,
            dispatch.outcomes() == Seq::<SendOutcome>::empty(),
    {
        proof {
            lemma_nothing_tried(request.user_list@);
        }
        Dispatch {
            request,
            successful: Vec::new(),
            errors: Vec::new(),
            outcomes: Ghost(Seq::empty()),
        }
    }

    /// Whether every recipient has been tried.
    pub fn is_done(&self) -> (done: bool)
        ensures
            done == (self.outcomes().len() == self.recipients().len()),
            self.outcomes().len() <= self.recipients().len(),
    {
        proof {
            use_type_invariant(self);
            lemma_every_attempt_counted(self.request.user_list@, self.outcomes@);
        }
        let total = self.request.user_list.len();
        self.successful.len() + self.errors.len() == total
    }

    /// The call that is due: to the first recipient not yet tried, with the
    /// text and the dialect of the request, at the endpoint of the bot that
    /// `token` belongs to. `None` once every recipient has been tried.
    pub fn next_call(&self, token: &str) -> (call: Option<OutboundCall>)
        ensures
            self.outcomes().len() <= self.recipients().len(),
            call is None <==> self.outcomes().len() == self.recipients().len(),
            call matches Some(due) ==> {
                &&& due.url@ == send_message_url_spec(token@)
                &&& due.body.chat_id == self.recipients()[self.outcomes().len() as int]
                &&& due.body.text@ == self.message()
                &&& due.body.parse_mode@ == self.parse_mode()
            },
    {
        proof {
            use_type_invariant(self);
            lemma_every_attempt_counted(self.request.user_list@, self.outcomes@);
        }
        let total = self.request.user_list.len();
        let next = self.successful.len() + self.errors.len();
        if next < total {
            Some(
                telegram_send_request(
                    self.request.user_list[next],
                    self.request.message,
                    self.request.parse_mode,
                    token,
                ),
            )
        } else {
            None
        }
    }

    /// Takes in what came of the call that was due, and gives the delivery
    /// as it stands after it. The recipient of that call joins the reached
    /// or the missed, by the outcome. An outcome reported when no call was
    /// due is dropped.
    pub fn record(self, outcome: SendOutcome) -> (after: Self)
        ensures
            after.message() == self.message(),
            after.parse_mode() == self.parse_mode(),
            after.recipients() == self.recipients(),
            after.outcomes() == if self.outcomes().len() < self.recipients().len() {
                self.outcomes().push(outcome)
            } else {
                self.outcomes()
            },
            after.outcomes().len() <= after.recipients().len(),
    {
        proof {
            use_type_invariant(&self);
            lemma_every_attempt_counted(self.request.user_list@, self.outcomes@);
            lemma_one_more_attempt(self.request.user_list@, self.outcomes@, outcome);
        }
        let Dispatch { request, mut successful, mut errors, outcomes } = self;
        let total = request.user_list.len();
        let next = successful.len() + errors.len();
        if next < total {
            let recipient = request.user_list[next];
            match telegram_send_result(outcome) {
                Ok(_) => successful.push(recipient),
                Err(_) => errors.push(recipient),
            }
            Dispatch { request, successful, errors, outcomes: Ghost(outcomes@.push(outcome)) }
        } else {
            Dispatch { request, successful, errors, outcomes }
        }
    }

    /// The response as it stands: the recipients reached and those missed
    /// by the attempts made so far. Once every recipient has been tried it
    /// answers the request.
    pub fn into_response(self) -> (response: SendMessageResponse)
        ensures
            response.successful@ == delivered(self.recipients(), self.outcomes()),
            response.errors@ == failed(self.recipients(), self.outcomes()),
            response.successful@.len() + response.errors@.len() == self.outcomes().len(),
    {
        proof {
            use_type_invariant(&self);
            lemma_every_attempt_counted(self.request.user_list@, self.outcomes@);
        }
        SendMessageResponse { successful: self.successful, errors: self.errors }
    }
}

} // verus!

//! Topic filters and what a subscriber receives.
//!
//! A filter is a binary prefix. The engine carries it from the resolver to
//! the subscribing socket and never looks inside. A subscriber receives a
//! message when one of its filters is a prefix of the message.

use vstd::prelude::*;
use vstd::slice::slice_to_vec;

verus! {

/// A binary prefix that selects messages.
#[derive(Clone, Debug)]
pub struct TopicFilter {
    prefix: Vec<u8>,
}

impl View for TopicFilter {
    type V = Seq<u8>;

    closed spec fn view(&self) -> Seq<u8> {
        self.prefix@
    }
}

/// Whether a subscriber with `filters` installed receives `message`.
pub open spec fn accepts(filters: Seq<Seq<u8>>, message: Seq<u8>) -> bool {
    exists|i: int| 0 <= i < filters.len() && (#[trigger] filters[i]).is_prefix_of(message)
}

/// The test a subscriber with `filters` installed puts every message to.
pub open spec fn passes(filters: Seq<Seq<u8>>) -> spec_fn(Seq<u8>) -> bool {
    |message: Seq<u8>| accepts(filters, message)
}

/// The messages, in order, that a subscriber with `filters` installed
/// receives out of `traffic`.
pub open spec fn delivered(filters: Seq<Seq<u8>>, traffic: Seq<Seq<u8>>) -> Seq<Seq<u8>> {
    traffic.filter(passes(filters))
}

/// The byte sequences that `traffic` holds.
pub open spec fn payloads(traffic: Seq<Vec<u8>>) -> Seq<Seq<u8>> {
    traffic.map_values(|message: Vec<u8>| message@)
}

impl TopicFilter {
    /// Wraps the bytes a resolver returned.
    pub fn new(prefix: Vec<u8>) -> (filter: TopicFilter)
        ensures
            filter@ == prefix@,
    {
        TopicFilter { prefix }
    }

    /// The empty prefix, which every message starts with.
    pub fn accept_all() -> (filter: TopicFilter)
        ensures
            filter@ == Seq::<u8>::empty(),
    {
        TopicFilter { prefix: Vec::new() }
    }

    /// The prefix, as handed to the subscribing socket.
    pub fn as_bytes(&self) -> (bytes: &[u8])
        ensures
            bytes@ == self@,
    {
        self.prefix.as_slice()
    }

    /// Whether `message` starts with this prefix.
    pub fn matches(&self, message: &[u8]) -> (hit: bool)
        ensures
            hit == self@.is_prefix_of(message@),
    {
        let n = self.prefix.len();
        if n > message.len() {
            return false;
        }
        let mut i: usize = 0;
        while i < n
            invariant
                n == self.prefix@.len(),
                n <= message@.len(),
                i <= n,
                forall|k: int| 0 <= k < i ==> self.prefix@[k] == message@[k],
            decreases n - i,
        {
            if self.prefix[i] != message[i] {
                proof {
                    let taken = message@.subrange(0, n as int);
                    assert(taken[i as int] != self.prefix@[i as int]);
                }
                return false;
            }
            i += 1;
        }
        proof {
            assert(self.prefix@ =~= message@.subrange(0, n as int));
        }
        true
    }
}

/// A message as the broker sees it: who published it, and its bytes.
pub struct Publication {
    /// The participant that published the message.
    pub publisher: u32,
    /// The bytes of the message.
    pub payload: Seq<u8>,
}

/// The bytes of a publication.
pub open spec fn payload_of() -> spec_fn(Publication) -> Seq<u8> {
    |publication: Publication| publication.payload
}

/// The test for the publications of `publisher`.
pub open spec fn published_by(publisher: u32) -> spec_fn(Publication) -> bool {
    |publication: Publication| publication.publisher == publisher
}

/// The test a subscriber with `filters` installed puts every publication to.
pub open spec fn passes_publication(filters: Seq<Seq<u8>>) -> spec_fn(Publication) -> bool {
    |publication: Publication| accepts(filters, publication.payload)
}

/// A subscriber with no filter installed receives nothing, whatever is
/// published.
pub proof fn lemma_no_subscription_receives_nothing(traffic: Seq<Seq<u8>>)
    ensures
        delivered(Seq::empty(), traffic) == Seq::<Seq<u8>>::empty(),
        forall|message: Seq<u8>| !accepts(Seq::empty(), message),
{
    let received = delivered(Seq::empty(), traffic);
    if received.len() > 0 {
        traffic.lemma_filter_pred(passes(Seq::empty()), 0);
    }
}

/// A subscriber with the empty prefix installed receives everything.
pub proof fn lemma_empty_prefix_receives_everything(traffic: Seq<Seq<u8>>)
    ensures
        delivered(seq![Seq::<u8>::empty()], traffic) == traffic,
        forall|message: Seq<u8>| accepts(seq![Seq::<u8>::empty()], message),
    decreases traffic.len(),
{
    let filters = seq![Seq::<u8>::empty()];
    assert forall|message: Seq<u8>| accepts(filters, message) by {
        assert(filters[0].is_prefix_of(message));
    }
    reveal(Seq::filter);
    if traffic.len() > 0 {
        lemma_empty_prefix_receives_everything(traffic.drop_last());
        assert(traffic.drop_last().push(traffic.last()) =~= traffic);
    }
}

/// A subscriber receives a message exactly when the message was published
/// and one of the subscriber's filters is a prefix of it.
pub proof fn lemma_delivery_is_exact(filters: Seq<Seq<u8>>, traffic: Seq<Seq<u8>>)
    ensures
        forall|message: Seq<u8>|
            delivered(filters, traffic).contains(message) <==> traffic.contains(message)
                && accepts(filters, message),
        delivered(filters, traffic).len() <= traffic.len(),
{
    let keep = passes(filters);
    traffic.lemma_filter_len(keep);
    assert forall|message: Seq<u8>|
        delivered(filters, traffic).contains(message) implies traffic.contains(message)
        && accepts(filters, message) by {
        traffic.lemma_filter_contains_rev(keep, message);
    }
    assert forall|message: Seq<u8>|
        traffic.contains(message) && accepts(filters, message) implies delivered(
        filters,
        traffic,
    ).contains(message) by {
        let i = choose|i: int| 0 <= i < traffic.len() && traffic[i] == message;
        traffic.lemma_filter_contains(keep, i);
    }
}

/// A subscriber to the single filter `topic` receives every published
/// message that starts with `topic`, and no other.
pub proof fn lemma_single_topic_delivery(topic: Seq<u8>, traffic: Seq<Seq<u8>>)
    ensures
        forall|message: Seq<u8>| accepts(seq![topic], message) <==> topic.is_prefix_of(message),
        forall|message: Seq<u8>|
            delivered(seq![topic], traffic).contains(message) <==> traffic.contains(message)
                && topic.is_prefix_of(message),
{
    let filters = seq![topic];
    assert forall|message: Seq<u8>| accepts(filters, message) <==> topic.is_prefix_of(
        message,
    ) by {
        if topic.is_prefix_of(message) {
            assert(filters[0].is_prefix_of(message));
        }
    }
    lemma_delivery_is_exact(filters, traffic);
}

/// Selecting by one test and then by another gives what selecting in the
/// other order gives.
pub proof fn lemma_filters_commute<A>(
    items: Seq<A>,
    first: spec_fn(A) -> bool,
    second: spec_fn(A) -> bool,
)
    ensures
        items.filter(first).filter(second) == items.filter(second).filter(first),
    decreases items.len(),
{
    reveal(Seq::filter);
    if items.len() > 0 {
        let rest = items.drop_last();
        let last = items.last();
        lemma_filters_commute(rest, first, second);
        assert(rest.push(last) =~= items);
        rest.lemma_filter_push(last, first);
        rest.lemma_filter_push(last, second);
        rest.filter(first).lemma_filter_push(last, second);
        rest.filter(second).lemma_filter_push(last, first);
    }
}

/// What a subscriber receives of the bytes published is the bytes of the
/// publications that pass its filters.
pub proof fn lemma_delivery_keeps_payloads(filters: Seq<Seq<u8>>, published: Seq<Publication>)
    ensures
        delivered(filters, published.map_values(payload_of())) == published.filter(
            passes_publication(filters),
        ).map_values(payload_of()),
    decreases published.len(),
{
    reveal(Seq::filter);
    let bytes = published.map_values(payload_of());
    if published.len() == 0 {
        assert(bytes =~= Seq::<Seq<u8>>::empty());
        assert(published.filter(passes_publication(filters)).map_values(payload_of())
            =~= Seq::<Seq<u8>>::empty());
    } else {
        let rest = published.drop_last();
        let last = published.last();
        lemma_delivery_keeps_payloads(filters, rest);
        assert(rest.push(last) =~= published);
        assert(bytes =~= rest.map_values(payload_of()).push(last.payload));
        rest.lemma_filter_push(last, passes_publication(filters));
        rest.map_values(payload_of()).lemma_filter_push(last.payload, passes(filters));
        let kept = rest.filter(passes_publication(filters));
        assert(kept.push(last).map_values(payload_of()) =~= kept.map_values(payload_of()).push(
            last.payload,
        ));
    }
}

/// A subscriber sees the messages of any one publisher in the order in
/// which that publisher sent them: what it receives from `publisher` is, in
/// order, what `publisher` published that passes the filters.
pub proof fn lemma_delivery_preserves_publisher_order(
    filters: Seq<Seq<u8>>,
    published: Seq<Publication>,
    publisher: u32,
)
    ensures
        published.filter(passes_publication(filters)).filter(published_by(publisher))
            == published.filter(published_by(publisher)).filter(passes_publication(filters)),
{
    lemma_filters_commute(published, passes_publication(filters), published_by(publisher));
}

/// The filters installed on one subscribing socket, in the order of their
/// installation.
#[derive(Clone, Debug)]
pub struct SubscriptionSet {
    filters: Vec<TopicFilter>,
}

impl View for SubscriptionSet {
    type V = Seq<Seq<u8>>;

    closed spec fn view(&self) -> Seq<Seq<u8>> {
        self.filters@.map_values(|filter: TopicFilter| filter@)
    }
}

impl SubscriptionSet {
    /// A socket with no filter installed.
    pub fn new() -> (set: SubscriptionSet)
        ensures
            set@ == Seq::<Seq<u8>>::empty(),
    {
        let set = SubscriptionSet { filters: Vec::new() };
        assert(set@ =~= Seq::<Seq<u8>>::empty());
        set
    }

    /// Installs one more filter.
    pub fn subscribe(&mut self, filter: TopicFilter)
        ensures
            final(self)@ == old(self)@.push(filter@),
    {
        self.filters.push(filter);
        assert(self@ =~= old(self)@.push(filter@));
    }

    /// The number of filters installed.
    pub fn len(&self) -> (n: usize)
        ensures
            n == self@.len(),
    {
        self.filters.len()
    }

    /// The `index`-th filter installed.
    pub fn filter(&self, index: usize) -> (filter: &TopicFilter)
        requires
            index < self@.len(),
        ensures
            filter@ == self@[index as int],
    {
        &self.filters[index]
    }

    /// Whether the socket lets `message` through.
    pub fn accepts(&self, message: &[u8]) -> (hit: bool)
        ensures
            hit == accepts(self@, message@),
    {
        let mut i: usize = 0;
        while i < self.filters.len()
            invariant
                i <= self.filters@.len(),
                self@.len() == self.filters@.len(),
                forall|k: int| 0 <= k < i ==> !(#[trigger] self@[k]).is_prefix_of(message@),
            decreases self.filters@.len() - i,
        {
            if self.filters[i].matches(message) {
                assert(self@[i as int] == self.filters@[i as int]@);
                return true;
            }
            assert(self@[i as int] == self.filters@[i as int]@);
            i += 1;
        }
        false
    }

    /// The messages of `traffic` that the socket lets through, in the order
    /// in which they came.
    pub fn deliver(&self, traffic: &Vec<Vec<u8>>) -> (received: Vec<Vec<u8>>)
        ensures
            payloads(received@) == delivered(self@, payloads(traffic@)),
    {
        let ghost keep = passes(self@);
        let mut received: Vec<Vec<u8>> = Vec::new();
        let mut i: usize = 0;
        proof {
            reveal(Seq::filter);
            assert(payloads(traffic@.take(0)) =~= Seq::<Seq<u8>>::empty());
            assert(payloads(received@) =~= Seq::<Seq<u8>>::empty());
        }
        while i < traffic.len()
            invariant
                i <= traffic@.len(),
                keep == passes(self@),
                payloads(received@) == payloads(traffic@.take(i as int)).filter(keep),
            decreases traffic@.len() - i,
        {
            let message = traffic[i].as_slice();
            let ghost before = payloads(traffic@.take(i as int));
            proof {
                assert(traffic@.take(i + 1) =~= traffic@.take(i as int).push(traffic@[i as int]));
                assert(payloads(traffic@.take(i + 1)) =~= before.push(message@));
                before.lemma_filter_push(message@, keep);
            }
            if self.accepts(message) {
                let copy = slice_to_vec(message);
                let ghost shorter = received@;
                received.push(copy);
                assert(payloads(received@) =~= payloads(shorter).push(message@));
            }
            i += 1;
        }
        assert(traffic@.take(i as int) =~= traffic@);
        received
    }
}

} // verus!

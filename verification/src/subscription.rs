//! Topic matching and the subscription control protocol.
//!
//! A subscription is a byte string. It matches a payload when it is a prefix
//! of the payload, so the empty subscription matches everything. A control
//! frame is one tag byte followed by a topic: tag 1 appends the topic to the
//! peer's list, tag 0 removes the first entry equal to the topic. A peer may
//! hold the same topic several times; each unsubscribe takes one of them away.

use vstd::prelude::*;

verus! {

/// Tag byte of a control frame that cancels a subscription.
pub const UNSUBSCRIBE: u8 = 0;

/// Tag byte of a control frame that adds a subscription.
pub const SUBSCRIBE: u8 = 1;

/// A peer with the subscriptions `subs` is to receive `payload`: one of the
/// subscriptions is a prefix of it.
pub open spec fn accepts(subs: Seq<Seq<u8>>, payload: Seq<u8>) -> bool {
    exists|i: int| 0 <= i < subs.len() && (#[trigger] subs[i]).is_prefix_of(payload)
}

/// The list `subs` without its first entry equal to `topic`; `subs` itself
/// where no entry is equal to it.
pub open spec fn without_first(subs: Seq<Seq<u8>>, topic: Seq<u8>) -> Seq<Seq<u8>> {
    match subs.index_of_first(topic) {
        Some(i) => subs.remove(i),
        None => subs,
    }
}

/// The subscription list after one control frame with the bytes `frame`.
pub open spec fn after_control(subs: Seq<Seq<u8>>, frame: Seq<u8>) -> Seq<Seq<u8>> {
    if frame.len() == 0 {
        subs
    } else if frame[0] == SUBSCRIBE {
        subs.push(frame.skip(1))
    } else if frame[0] == UNSUBSCRIBE {
        without_first(subs, frame.skip(1))
    } else {
        subs
    }
}

/// The subscription list after the control frames `frames`, first to last.
pub open spec fn after_controls(subs: Seq<Seq<u8>>, frames: Seq<Seq<u8>>) -> Seq<Seq<u8>>
    decreases frames.len(),
{
    if frames.len() == 0 {
        subs
    } else {
        after_control(after_controls(subs, frames.drop_last()), frames.last())
    }
}

/// Whether `topic` is a prefix of `payload`.
pub fn topic_matches(topic: &Vec<u8>, payload: &Vec<u8>) -> (hit: bool)
    ensures
        hit == topic@.is_prefix_of(payload@),
{
    if topic.len() > payload.len() {
        return false;
    }
    let mut i: usize = 0;
    while i < topic.len()
        invariant
            i <= topic.len() <= payload.len(),
            forall|j: int| 0 <= j < i ==> topic@[j] == payload@[j],
        decreases topic.len() - i,
    {
        if topic[i] != payload[i] {
            assert(payload@.subrange(0, topic@.len() as int)[i as int] == payload@[i as int]);
            return false;
        }
        i += 1;
    }
    assert(topic@ =~= payload@.subrange(0, topic@.len() as int));
    true
}

/// Whether two topics are the same bytes.
pub fn same_topic(a: &Vec<u8>, b: &Vec<u8>) -> (same: bool)
    ensures
        same == (a@ == b@),
{
    let same: bool = a.len() == b.len() && topic_matches(a, b);
    proof {
        if a.len() == b.len() {
            assert(b@.subrange(0, a@.len() as int) =~= b@);
        }
    }
    same
}

/// Position of the first subscription that is a prefix of `payload`.
pub fn first_match(subscriptions: &Vec<Vec<u8>>, payload: &Vec<u8>) -> (found: Option<usize>)
    ensures
        found is Some <==> accepts(subscriptions.deep_view(), payload@),
        found matches Some(i) ==> {
            &&& i < subscriptions.len()
            &&& subscriptions.deep_view()[i as int].is_prefix_of(payload@)
            &&& forall|j: int|
                0 <= j < i ==> !(#[trigger] subscriptions.deep_view()[j]).is_prefix_of(payload@)
        },
{
    let mut i: usize = 0;
    while i < subscriptions.len()
        invariant
            i <= subscriptions.len(),
            forall|j: int|
                0 <= j < i ==> !(#[trigger] subscriptions.deep_view()[j]).is_prefix_of(payload@),
        decreases subscriptions.len() - i,
    {
        assert(subscriptions.deep_view()[i as int] == subscriptions@[i as int]@);
        if topic_matches(&subscriptions[i], payload) {
            return Some(i);
        }
        i += 1;
    }
    None
}

/// Position of the first subscription equal to `topic`.
pub fn position_of(subscriptions: &Vec<Vec<u8>>, topic: &Vec<u8>) -> (found: Option<usize>)
    ensures
        match found {
            Some(i) => i < subscriptions.len() && subscriptions.deep_view().index_of_first(topic@)
                == Some(i as int),
            None => subscriptions.deep_view().index_of_first(topic@) is None,
        },
{
    let ghost subs = subscriptions.deep_view();
    let mut i: usize = 0;
    while i < subscriptions.len()
        invariant
            i <= subscriptions.len(),
            subs == subscriptions.deep_view(),
            forall|j: int| 0 <= j < i ==> #[trigger] subs[j] != topic@,
        decreases subscriptions.len() - i,
    {
        assert(subs[i as int] == subscriptions@[i as int]@);
        if same_topic(&subscriptions[i], topic) {
            proof {
                subs.index_of_first_ensures(topic@);
                let first = subs.index_of_first(topic@).unwrap();
                assert(subs[first] == topic@);
            }
            return Some(i);
        }
        i += 1;
    }
    proof {
        subs.index_of_first_ensures(topic@);
    }
    None
}

/// The model of a subscription list holds the bytes of each entry, in order.
pub proof fn lemma_topics(subscriptions: Vec<Vec<u8>>)
    ensures
        subscriptions.deep_view().len() == subscriptions@.len(),
        forall|i: int|
            0 <= i < subscriptions@.len() ==> #[trigger] subscriptions.deep_view()[i]
                == subscriptions@[i]@,
{
    assert forall|i: int| 0 <= i < subscriptions@.len() implies #[trigger] subscriptions.deep_view()[i]
        == subscriptions@[i]@ by {
        assert(subscriptions.deep_view()[i] =~= subscriptions@[i]@);
    }
}

/// The topic of a control frame: its bytes after the tag.
pub fn topic_of(frame: &Vec<u8>) -> (topic: Vec<u8>)
    ensures
        frame.len() > 0 ==> topic@ == frame@.skip(1),
        frame.len() == 0 ==> topic@ == Seq::<u8>::empty(),
{
    if frame.len() == 0 {
        return Vec::new();
    }
    let mut topic: Vec<u8> = Vec::new();
    let mut i: usize = 1;
    while i < frame.len()
        invariant
            1 <= i <= frame.len(),
            topic@ == frame@.subrange(1, i as int),
        decreases frame.len() - i,
    {
        topic.push(frame[i]);
        i += 1;
    }
    topic
}

/// Whether `frame` is a control frame: it has a tag, and the tag is one of
/// the two above. Any other frame changes no subscription list.
pub fn is_control(frame: &Vec<u8>) -> (control: bool)
    ensures
        control == (frame.len() > 0 && (frame@[0] == SUBSCRIBE || frame@[0] == UNSUBSCRIBE)),
        !control ==> forall|subs: Seq<Seq<u8>>| #[trigger] after_control(subs, frame@) == subs,
{
    frame.len() > 0 && (frame[0] == SUBSCRIBE || frame[0] == UNSUBSCRIBE)
}

/// Carries out one control frame on a peer's subscription list. A frame
/// without bytes, or with a tag other than the two above, changes nothing.
pub fn apply_control(subscriptions: &mut Vec<Vec<u8>>, frame: &Vec<u8>)
    ensures
        final(subscriptions).deep_view() == after_control(old(subscriptions).deep_view(), frame@),
{
    if frame.len() == 0 {
        return ;
    }
    let tag: u8 = frame[0];
    if tag == SUBSCRIBE {
        let topic = topic_of(frame);
        subscriptions.push(topic);
        proof {
            lemma_topics(*old(subscriptions));
            lemma_topics(*subscriptions);
            assert(subscriptions.deep_view() =~= old(subscriptions).deep_view().push(
                frame@.skip(1),
            ));
        }
    } else if tag == UNSUBSCRIBE {
        let topic = topic_of(frame);
        match position_of(subscriptions, &topic) {
            Some(index) => {
                let _ = subscriptions.remove(index);
                proof {
                    lemma_topics(*old(subscriptions));
                    lemma_topics(*subscriptions);
                    assert(subscriptions.deep_view() =~= old(subscriptions).deep_view().remove(
                        index as int,
                    ));
                }
            },
            None => {},
        }
    }
}

/// Unsubscribing a topic that the list does not hold changes nothing.
pub proof fn lemma_unsubscribe_absent(subs: Seq<Seq<u8>>, topic: Seq<u8>)
    requires
        !subs.contains(topic),
    ensures
        without_first(subs, topic) == subs,
{
    subs.index_of_first_ensures(topic);
}

/// Unsubscribing a topic that the list holds takes away its first occurrence
/// and nothing else: the entries before it and after it keep their order.
pub proof fn lemma_unsubscribe_present(subs: Seq<Seq<u8>>, topic: Seq<u8>, i: int)
    requires
        0 <= i < subs.len(),
        subs[i] == topic,
        forall|j: int| 0 <= j < i ==> subs[j] != topic,
    ensures
        without_first(subs, topic) == subs.subrange(0, i) + subs.subrange(i + 1, subs.len() as int),
{
    subs.index_of_first_ensures(topic);
}

/// A subscribe frame followed by an unsubscribe frame for the same topic
/// leaves a list that did not hold the topic as it was.
pub proof fn lemma_subscribe_then_unsubscribe(subs: Seq<Seq<u8>>, topic: Seq<u8>)
    requires
        !subs.contains(topic),
    ensures
        without_first(subs.push(topic), topic) == subs,
{
    let grown = subs.push(topic);
    grown.index_of_first_ensures(topic);
    assert(grown[subs.len() as int] == topic);
    assert forall|j: int| 0 <= j < subs.len() implies grown[j] != topic by {
        assert(subs[j] == grown[j]);
    }
    assert(grown.remove(subs.len() as int) =~= subs);
}

/// Subscribing adds one occurrence of the topic to the list, and
/// unsubscribing takes one away where there is one: as multisets, the list
/// after a control frame is the list before it with that one change.
pub proof fn lemma_control_counts(subs: Seq<Seq<u8>>, frame: Seq<u8>)
    ensures
        frame.len() > 0 && frame[0] == SUBSCRIBE ==> after_control(subs, frame).to_multiset()
            == subs.to_multiset().insert(frame.skip(1)),
        frame.len() > 0 && frame[0] == UNSUBSCRIBE ==> after_control(subs, frame).to_multiset()
            == subs.to_multiset().remove(frame.skip(1)),
        frame.len() == 0 || (frame[0] != SUBSCRIBE && frame[0] != UNSUBSCRIBE) ==> after_control(
            subs,
            frame,
        ) == subs,
{
    subs.to_multiset_ensures();
    if frame.len() > 0 && frame[0] == UNSUBSCRIBE {
        let topic = frame.skip(1);
        subs.index_of_first_ensures(topic);
        match subs.index_of_first(topic) {
            Some(i) => {
                vstd::seq_lib::to_multiset_remove(subs, i);
            },
            None => {
                assert(subs.to_multiset().count(topic) == 0) by {
                    if subs.to_multiset().count(topic) > 0 {
                        assert(subs.to_multiset().contains(topic));
                        assert(subs.contains(topic));
                    }
                }
                assert(subs.to_multiset().remove(topic) =~= subs.to_multiset());
            },
        }
    }
}

/// Control frames take effect one after the other: carrying out `first` and
/// then `second` is carrying out the two in a row.
pub proof fn lemma_controls_in_turn(
    subs: Seq<Seq<u8>>,
    first: Seq<Seq<u8>>,
    second: Seq<Seq<u8>>,
)
    ensures
        after_controls(subs, first + second) == after_controls(
            after_controls(subs, first),
            second,
        ),
    decreases second.len(),
{
    if second.len() == 0 {
        assert(first + second =~= first);
    } else {
        lemma_controls_in_turn(subs, first, second.drop_last());
        assert((first + second).drop_last() =~= first + second.drop_last());
        assert((first + second).last() == second.last());
    }
}

/// A list that holds the empty topic accepts every payload.
pub proof fn lemma_empty_topic_accepts_all(subs: Seq<Seq<u8>>, payload: Seq<u8>)
    requires
        subs.contains(Seq::<u8>::empty()),
    ensures
        accepts(subs, payload),
{
    let i = choose|i: int| 0 <= i < subs.len() && subs[i] == Seq::<u8>::empty();
    assert(subs[i].is_prefix_of(payload));
}

/// A list none of whose topics is a prefix of the payload does not accept
/// it. In particular a list without topics accepts nothing.
pub proof fn lemma_no_prefix_no_accept(subs: Seq<Seq<u8>>, payload: Seq<u8>)
    requires
        forall|i: int| 0 <= i < subs.len() ==> !(#[trigger] subs[i]).is_prefix_of(payload),
    ensures
        !accepts(subs, payload),
{
}

} // verus!

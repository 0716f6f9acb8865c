//! What a broadcast does, stated over the subscription lists of the peers.

use crate::channel::Delivery;
use crate::message::PeerIdentity;
use crate::registry::{no_peers, Registry};
use crate::subscription::{accepts, lemma_empty_topic_accepts_all};
use vstd::prelude::*;

verus! {

/// One delivery that a broadcast tried: the peer and how the attempt ended.
#[derive(Clone, Debug, PartialEq, Eq)]
pub struct Attempt {
    pub peer: PeerIdentity,
    pub outcome: Delivery,
}

/// The peers that a report names, in the order of the attempts.
pub open spec fn attempted(report: Seq<Attempt>) -> Seq<Seq<u8>> {
    report.map_values(|attempt: Attempt| attempt.peer@)
}

/// The peers that a report shows to be disconnected.
pub open spec fn disconnected(report: Seq<Attempt>) -> Set<Seq<u8>> {
    Set::new(
        |peer: Seq<u8>|
            exists|i: int|
                0 <= i < report.len() && (#[trigger] report[i]).peer@ == peer && report[i].outcome
                    == Delivery::Disconnected,
    )
}

/// `report` and `after` are a possible result of broadcasting `payload` to
/// the registry `before`: every peer that accepts the payload was tried once
/// and no other peer was tried, and the peers that proved disconnected have
/// left the registry while all others stay as they were.
pub open spec fn is_fan_out(
    before: Registry,
    payload: Seq<u8>,
    report: Seq<Attempt>,
    after: Registry,
) -> bool {
    &&& attempted(report).no_duplicates()
    &&& forall|peer: Seq<u8>| #[trigger]
        attempted(report).contains(peer) <==> before.contains_key(peer) && accepts(
            before[peer],
            payload,
        )
    &&& after == before.remove_keys(disconnected(report))
}

/// `peer` is one of the first `n` entries of `peers`.
pub(crate) open spec fn among(peers: Seq<Seq<u8>>, n: int, peer: Seq<u8>) -> bool {
    exists|j: int| 0 <= j < n && j < peers.len() && #[trigger] peers[j] == peer
}

/// Looking at one more entry adds that entry and nothing else.
pub(crate) proof fn lemma_among_next(peers: Seq<Seq<u8>>, n: int)
    requires
        0 <= n < peers.len(),
    ensures
        forall|p: Seq<u8>| #[trigger] among(peers, n + 1, p) <==> among(peers, n, p) || p == peers[n],
{
    assert forall|p: Seq<u8>| #[trigger] among(peers, n + 1, p) <==> among(peers, n, p) || p
        == peers[n] by {
        if among(peers, n + 1, p) {
            let j = choose|j: int| 0 <= j < n + 1 && j < peers.len() && #[trigger] peers[j] == p;
            if j < n {
                assert(among(peers, n, p));
            }
        }
        if among(peers, n, p) {
            let j = choose|j: int| 0 <= j < n && j < peers.len() && #[trigger] peers[j] == p;
            assert(0 <= j < n + 1 && peers[j] == p);
        }
        if p == peers[n] {
            assert(0 <= n < n + 1 && peers[n] == p);
        }
    }
}

/// A list with one more name holds that name and what it held before.
pub(crate) proof fn lemma_name_added(names: Seq<Seq<u8>>, name: Seq<u8>)
    ensures
        forall|p: Seq<u8>| #[trigger]
            names.push(name).contains(p) <==> names.contains(p) || p == name,
{
    let grown = names.push(name);
    assert forall|p: Seq<u8>| #[trigger] grown.contains(p) <==> names.contains(p) || p == name by {
        if names.contains(p) {
            let j = choose|j: int| 0 <= j < names.len() && names[j] == p;
            assert(grown[j] == p);
        }
        if p == name {
            assert(grown[names.len() as int] == p);
        }
    }
}

/// One more attempt adds its peer to the peers that the report names.
pub(crate) proof fn lemma_attempt_added(tried: Seq<Attempt>, attempt: Attempt)
    ensures
        attempted(tried.push(attempt)) == attempted(tried).push(attempt.peer@),
        forall|p: Seq<u8>| #[trigger]
            attempted(tried.push(attempt)).contains(p) <==> attempted(tried).contains(p) || p
                == attempt.peer@,
        attempted(tried).no_duplicates() && !attempted(tried).contains(attempt.peer@) ==> attempted(
            tried.push(attempt),
        ).no_duplicates(),
{
    assert(attempted(tried.push(attempt)) =~= attempted(tried).push(attempt.peer@));
    lemma_name_added(attempted(tried), attempt.peer@);
}

/// One more attempt adds its peer to the disconnected peers if that is how
/// it ended, and changes nothing about them otherwise.
pub(crate) proof fn lemma_dead_added(tried: Seq<Attempt>, attempt: Attempt)
    ensures
        forall|p: Seq<u8>| #[trigger]
            disconnected(tried.push(attempt)).contains(p) <==> disconnected(tried).contains(p) || (p
                == attempt.peer@ && attempt.outcome == Delivery::Disconnected),
{
    let grown = tried.push(attempt);
    assert forall|p: Seq<u8>| #[trigger]
        disconnected(grown).contains(p) <==> disconnected(tried).contains(p) || (p == attempt.peer@
            && attempt.outcome == Delivery::Disconnected) by {
        if disconnected(grown).contains(p) {
            let i = choose|i: int|
                0 <= i < grown.len() && (#[trigger] grown[i]).peer@ == p && grown[i].outcome
                    == Delivery::Disconnected;
            if i < tried.len() {
                assert(tried[i].peer@ == p);
            }
        }
        if disconnected(tried).contains(p) {
            let i = choose|i: int|
                0 <= i < tried.len() && (#[trigger] tried[i]).peer@ == p && tried[i].outcome
                    == Delivery::Disconnected;
            assert(grown[i].peer@ == p);
        }
        if p == attempt.peer@ && attempt.outcome == Delivery::Disconnected {
            assert(grown[tried.len() as int].peer@ == p);
        }
    }
}

/// A peer that holds the empty subscription is offered every message.
pub proof fn lemma_catch_all_is_tried(
    before: Registry,
    payload: Seq<u8>,
    report: Seq<Attempt>,
    after: Registry,
    peer: Seq<u8>,
)
    requires
        is_fan_out(before, payload, report, after),
        before.contains_key(peer),
        before[peer].contains(Seq::<u8>::empty()),
    ensures
        attempted(report).contains(peer),
{
    lemma_empty_topic_accepts_all(before[peer], payload);
}

/// A peer none of whose subscriptions is a prefix of the message is not
/// offered it, and its record stays as it was.
pub proof fn lemma_no_match_is_skipped(
    before: Registry,
    payload: Seq<u8>,
    report: Seq<Attempt>,
    after: Registry,
    peer: Seq<u8>,
)
    requires
        is_fan_out(before, payload, report, after),
        before.contains_key(peer),
        forall|i: int|
            0 <= i < before[peer].len() ==> !(#[trigger] before[peer][i]).is_prefix_of(payload),
    ensures
        !attempted(report).contains(peer),
        after.contains_key(peer),
        after[peer] == before[peer],
{
    assert(!accepts(before[peer], payload));
    lemma_only_disconnected_peers_leave(before, payload, report, after, peer);
}

/// A peer that accepts the message is offered it exactly once, however many
/// of its subscriptions match.
pub proof fn lemma_one_attempt_per_peer(
    before: Registry,
    payload: Seq<u8>,
    report: Seq<Attempt>,
    after: Registry,
    peer: Seq<u8>,
)
    requires
        is_fan_out(before, payload, report, after),
        before.contains_key(peer),
        accepts(before[peer], payload),
    ensures
        exists|i: int|
            {
                &&& 0 <= i < report.len()
                &&& (#[trigger] report[i]).peer@ == peer
                &&& forall|j: int|
                    0 <= j < report.len() && (#[trigger] report[j]).peer@ == peer ==> j == i
            },
{
    let names = attempted(report);
    assert(names.contains(peer));
    let i = choose|i: int| 0 <= i < names.len() && names[i] == peer;
    assert(report[i].peer@ == peer);
    assert forall|j: int| 0 <= j < report.len() && (#[trigger] report[j]).peer@ == peer implies j
        == i by {
        assert(names[j] == peer);
    }
}

/// A peer stays in the registry unless its queue proved disconnected during
/// this broadcast, and a peer that stays keeps its subscriptions.
pub proof fn lemma_only_disconnected_peers_leave(
    before: Registry,
    payload: Seq<u8>,
    report: Seq<Attempt>,
    after: Registry,
    peer: Seq<u8>,
)
    requires
        is_fan_out(before, payload, report, after),
        before.contains_key(peer),
    ensures
        after.contains_key(peer) <==> !disconnected(report).contains(peer),
        after.contains_key(peer) ==> after[peer] == before[peer],
        disconnected(report).contains(peer) ==> attempted(report).contains(peer),
{
    if disconnected(report).contains(peer) {
        let i = choose|i: int|
            0 <= i < report.len() && (#[trigger] report[i]).peer@ == peer && report[i].outcome
                == Delivery::Disconnected;
        assert(attempted(report)[i] == peer);
    }
}

/// Whatever the outcomes of the attempts, a broadcast adds no record and
/// changes none, and it leaves every peer that does not accept the payload
/// in the registry.
pub proof fn lemma_registry_only_shrinks(
    before: Registry,
    payload: Seq<u8>,
    report: Seq<Attempt>,
    after: Registry,
)
    requires
        is_fan_out(before, payload, report, after),
    ensures
        forall|peer: Seq<u8>| #[trigger]
            after.contains_key(peer) ==> before.contains_key(peer) && after[peer] == before[peer],
        forall|peer: Seq<u8>|
            #![trigger before.contains_key(peer)]
            before.contains_key(peer) && !accepts(before[peer], payload) ==> after.contains_key(
                peer,
            ),
{
    assert forall|peer: Seq<u8>|
        #![trigger before.contains_key(peer)]
        before.contains_key(peer) && !accepts(before[peer], payload) implies after.contains_key(
        peer,
    ) by {
        lemma_only_disconnected_peers_leave(before, payload, report, after, peer);
    }
}

/// Once a peer has left the registry, no broadcast offers it anything and
/// none brings it back.
pub proof fn lemma_removed_peer_is_left_alone(
    before: Registry,
    payload: Seq<u8>,
    report: Seq<Attempt>,
    after: Registry,
    peer: Seq<u8>,
)
    requires
        is_fan_out(before.remove(peer), payload, report, after),
    ensures
        !attempted(report).contains(peer),
        !after.contains_key(peer),
{
}

/// A peer whose queue proved disconnected in one broadcast is offered
/// nothing by the next.
pub proof fn lemma_disconnected_peer_is_left_alone(
    before: Registry,
    payload: Seq<u8>,
    report: Seq<Attempt>,
    between: Registry,
    next_payload: Seq<u8>,
    next_report: Seq<Attempt>,
    after: Registry,
    peer: Seq<u8>,
)
    requires
        is_fan_out(before, payload, report, between),
        is_fan_out(between, next_payload, next_report, after),
        disconnected(report).contains(peer),
    ensures
        !between.contains_key(peer),
        !attempted(next_report).contains(peer),
        !after.contains_key(peer),
{
}

/// A broadcast to a registry without peers offers the message to nobody and
/// leaves the registry empty.
pub proof fn lemma_empty_registry_is_silent(
    payload: Seq<u8>,
    report: Seq<Attempt>,
    after: Registry,
)
    requires
        is_fan_out(no_peers(), payload, report, after),
    ensures
        report.len() == 0,
        after == no_peers(),
{
    if report.len() > 0 {
        assert(attempted(report)[0] == report[0].peer@);
        assert(attempted(report).contains(report[0].peer@));
    }
    assert(after =~= no_peers());
}

/// Where no peer accepts the message, in particular where no peer holds a
/// subscription, nobody is offered it and the registry stays as it was.
pub proof fn lemma_nobody_listens(
    before: Registry,
    payload: Seq<u8>,
    report: Seq<Attempt>,
    after: Registry,
)
    requires
        is_fan_out(before, payload, report, after),
        forall|peer: Seq<u8>| before.contains_key(peer) ==> !accepts(#[trigger] before[peer], payload),
    ensures
        report.len() == 0,
        after == before,
{
    if report.len() > 0 {
        assert(attempted(report)[0] == report[0].peer@);
        assert(attempted(report).contains(report[0].peer@));
    }
    assert(after =~= before);
}

} // verus!

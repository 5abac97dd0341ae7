//! What the pallet's calls promise together.

use vstd::prelude::*;

use crate::module::{
    first_index, lemma_first_index, lemma_without_no_duplicates, no_duplicates, without_account,
    ModuleView,
};
use crate::types::{AccountId, DispatchError, Event, Origin, ProposalHash, Weather};

verus! {

/// Deleting a proposal authority that was just added restores the storage.
pub proof fn law_delete_undoes_add_proposal_authority(v: ModuleView, who: AccountId)
    requires
        v.consistent(),
        !v.is_proposal_authority(who),
    ensures
        v.with_proposal_authority(who).without_proposal_authority(who) == v,
{
    let s = v.proposal_authorities;
    let pushed = s.push(who);
    assert(pushed[s.len() as int] == who);
    lemma_first_index(pushed, who);
    let k = first_index(pushed, who);
    assert(k == s.len()) by {
        if k < s.len() {
            assert(s[k] == who);
            assert(s.contains(who));
        }
    }
    assert(without_account(pushed, who) =~= s);
}

/// Deleting a vote authority that was just added restores the storage.
pub proof fn law_delete_undoes_add_vote_authority(v: ModuleView, who: AccountId)
    requires
        v.consistent(),
        !v.is_vote_authority(who),
    ensures
        v.with_vote_authority(who).without_vote_authority(who) == v,
{
    let s = v.vote_authorities;
    let pushed = s.push(who);
    assert(pushed[s.len() as int] == who);
    lemma_first_index(pushed, who);
    let k = first_index(pushed, who);
    assert(k == s.len()) by {
        if k < s.len() {
            assert(s[k] == who);
            assert(s.contains(who));
        }
    }
    assert(without_account(pushed, who) =~= s);
}

/// After an add, the account is an authority; after a delete, it is not; no other
/// account's standing changes.
pub proof fn law_authority_membership(v: ModuleView, who: AccountId, other: AccountId)
    requires
        v.consistent(),
        other != who,
    ensures
        v.with_proposal_authority(who).is_proposal_authority(who),
        !v.without_proposal_authority(who).is_proposal_authority(who),
        v.with_proposal_authority(who).is_proposal_authority(other) == v.is_proposal_authority(
            other,
        ),
        v.without_proposal_authority(who).is_proposal_authority(other)
            == v.is_proposal_authority(other),
        v.with_vote_authority(who).is_vote_authority(who),
        !v.without_vote_authority(who).is_vote_authority(who),
        v.with_vote_authority(who).is_vote_authority(other) == v.is_vote_authority(other),
        v.without_vote_authority(who).is_vote_authority(other) == v.is_vote_authority(other),
{
    let p = v.proposal_authorities;
    let q = v.vote_authorities;
    assert(p.push(who)[p.len() as int] == who);
    assert(q.push(who)[q.len() as int] == who);
    if p.contains(who) {
        lemma_without_no_duplicates(p, who);
    }
    if q.contains(who) {
        lemma_without_no_duplicates(q, who);
    }
    if p.push(who).contains(other) {
        let i = choose|i: int| 0 <= i < p.push(who).len() && p.push(who)[i] == other;
        assert(p[i] == other);
    }
    if p.contains(other) {
        let i = choose|i: int| 0 <= i < p.len() && p[i] == other;
        assert(p.push(who)[i] == other);
    }
    if q.push(who).contains(other) {
        let i = choose|i: int| 0 <= i < q.push(who).len() && q.push(who)[i] == other;
        assert(q[i] == other);
    }
    if q.contains(other) {
        let i = choose|i: int| 0 <= i < q.len() && q[i] == other;
        assert(q.push(who)[i] == other);
    }
}

/// Removing an authority from a list without duplicates that holds it leaves a
/// list without duplicates, without it, one shorter, and holding exactly the
/// other accounts the list held.
pub proof fn law_removal_keeps_authorities_distinct(v: ModuleView, who: AccountId)
    ensures
        no_duplicates(v.proposal_authorities) && v.is_proposal_authority(who) ==> ({
            let p = v.without_proposal_authority(who).proposal_authorities;
            &&& no_duplicates(p)
            &&& !p.contains(who)
            &&& p.len() == v.proposal_authorities.len() - 1
            &&& forall|other: AccountId|
                other != who ==> (#[trigger] p.contains(other) <==> v.proposal_authorities.contains(
                    other,
                ))
        }),
        no_duplicates(v.vote_authorities) && v.is_vote_authority(who) ==> ({
            let q = v.without_vote_authority(who).vote_authorities;
            &&& no_duplicates(q)
            &&& !q.contains(who)
            &&& q.len() == v.vote_authorities.len() - 1
            &&& forall|other: AccountId|
                other != who ==> (#[trigger] q.contains(other) <==> v.vote_authorities.contains(
                    other,
                ))
        }),
{
    if no_duplicates(v.proposal_authorities) && v.is_proposal_authority(who) {
        lemma_without_no_duplicates(v.proposal_authorities, who);
        lemma_first_index(v.proposal_authorities, who);
    }
    if no_duplicates(v.vote_authorities) && v.is_vote_authority(who) {
        lemma_without_no_duplicates(v.vote_authorities, who);
        lemma_first_index(v.vote_authorities, who);
    }
}

/// A refused call leaves the storage as it was.
pub proof fn law_refusals_change_nothing(
    v: ModuleView,
    origin: Origin,
    weather: Weather,
    hash: ProposalHash,
    who: AccountId,
)
    ensures
        v.proposal_step(origin, weather, hash).1 is Err ==> v.proposal_step(origin, weather, hash).0
            == v,
        v.vote_step(origin, hash).1 is Err ==> v.vote_step(origin, hash).0 == v,
        v.proposal_reputation_step(origin, who).1 is Err ==> v.proposal_reputation_step(
            origin,
            who,
        ).0 == v,
        v.vote_reputation_step(origin, who).1 is Err ==> v.vote_reputation_step(origin, who).0
            == v,
{
}

/// A proposal that is filed can be read back: its report, its owner, and its
/// place at the end of the list of all proposals and of the owner's list.
pub proof fn law_filed_proposal_is_stored(
    v: ModuleView,
    sender: AccountId,
    weather: Weather,
    hash: ProposalHash,
)
    requires
        v.is_proposal_authority(sender),
        v.all_proposals_count < u64::MAX,
        v.owned_count(sender) < u64::MAX,
    ensures
        ({
            let (n, r) = v.proposal_step(Origin::Signed(sender), weather, hash);
            &&& r == Ok::<Event, DispatchError>(
                Event::WeatherProposalSubmitted(sender, hash, weather),
            )
            &&& n.proposals.contains_key(hash) && n.proposals[hash] == weather@
            &&& n.proposal_owner.contains_key(hash) && n.proposal_owner[hash] == sender
            &&& n.all_proposals_count == v.all_proposals_count + 1
            &&& n.all_proposals_array[v.all_proposals_count] == hash
            &&& n.all_proposals_index[hash] == v.all_proposals_count
            &&& n.owned_count(sender) == v.owned_count(sender) + 1
            &&& n.owned_proposals_array[(sender, v.owned_count(sender))] == hash
        }),
{
}

/// A vote authority votes at most once for a proposal: a repeated vote is refused
/// and changes nothing.
pub proof fn law_vote_once(v: ModuleView, sender: AccountId, hash: ProposalHash)
    requires
        v.vote_step(Origin::Signed(sender), hash).1 is Ok,
    ensures
        ({
            let n = v.vote_step(Origin::Signed(sender), hash).0;
            n.vote_step(Origin::Signed(sender), hash) == (
                n,
                Err::<Event, DispatchError>(
                    DispatchError::Other("submit_weather_vote: sender has voted."),
                ),
            )
        }),
{
    let n = v.vote_step(Origin::Signed(sender), hash).0;
    let votes = v.confirmations(hash).push(sender);
    assert(votes[votes.len() - 1] == sender);
    assert(n.confirmations(hash) == votes);
    assert(n.vote_authorities == v.vote_authorities);
}

/// A vote counts once: it adds the voter to the proposal's votes, and the
/// proposal joins the confirmed list exactly when, with this vote, its count
/// equals the threshold, or passes it while the proposal is not yet confirmed.
pub proof fn law_vote_confirms_at_threshold(v: ModuleView, sender: AccountId, hash: ProposalHash)
    requires
        v.vote_step(Origin::Signed(sender), hash).1 is Ok,
        v.all_confirmed_proposals_count < u64::MAX,
    ensures
        ({
            let n = v.vote_step(Origin::Signed(sender), hash).0;
            let reached = v.vote_confirms(hash);
            &&& n.confirmations(hash) == v.confirmations(hash).push(sender)
            &&& reached ==> {
                &&& n.all_confirmed_proposals_count == v.all_confirmed_proposals_count + 1
                &&& n.all_confirmed_proposals_array[v.all_confirmed_proposals_count] == hash
                &&& n.all_confirmed_proposals_index[hash] == v.all_confirmed_proposals_count
            }
            &&& !reached ==> {
                &&& n.all_confirmed_proposals_count == v.all_confirmed_proposals_count
                &&& n.all_confirmed_proposals_array == v.all_confirmed_proposals_array
                &&& n.all_confirmed_proposals_index == v.all_confirmed_proposals_index
            }
        }),
{
}

/// A confirmed proposal is listed again only by a vote that brings its count
/// exactly to the threshold: votes past the threshold add nothing to the list.
pub proof fn law_confirmed_again_only_at_threshold(
    v: ModuleView,
    sender: AccountId,
    hash: ProposalHash,
)
    requires
        v.all_confirmed_proposals_index.contains_key(hash),
        v.vote_step(Origin::Signed(sender), hash).1 is Ok,
        v.all_confirmed_proposals_count < u64::MAX,
    ensures
        ({
            let n = v.vote_step(Origin::Signed(sender), hash).0;
            n.all_confirmed_proposals_count != v.all_confirmed_proposals_count
                <==> v.confirmations(hash).len() + 1 == v.vote_threshold
        }),
{
}

/// A vote against a proposal authority counts once, and the authority is removed,
/// with its votes cleared, exactly when with this vote the count reaches or
/// passes the threshold.
pub proof fn law_proposal_authority_kicked_out_at_threshold(
    v: ModuleView,
    sender: AccountId,
    who: AccountId,
)
    requires
        v.consistent(),
        v.proposal_reputation_step(Origin::Signed(sender), who).1 is Ok,
    ensures
        ({
            let n = v.proposal_reputation_step(Origin::Signed(sender), who).0;
            let reached = v.proposal_reputation(who).len() + 1 >= v.vote_threshold;
            &&& reached ==> !n.is_proposal_authority(who) && n.proposal_reputation(who)
                == Seq::<AccountId>::empty()
            &&& !reached ==> n.is_proposal_authority(who) && n.proposal_reputation(who)
                == v.proposal_reputation(who).push(sender)
        }),
{
    lemma_without_no_duplicates(v.proposal_authorities, who);
}

/// A vote against a vote authority counts once, and the authority is removed,
/// with its votes cleared, exactly when with this vote the count reaches or
/// passes the threshold.
pub proof fn law_vote_authority_kicked_out_at_threshold(
    v: ModuleView,
    sender: AccountId,
    who: AccountId,
)
    requires
        v.consistent(),
        v.vote_reputation_step(Origin::Signed(sender), who).1 is Ok,
    ensures
        ({
            let n = v.vote_reputation_step(Origin::Signed(sender), who).0;
            let reached = v.vote_reputation(who).len() + 1 >= v.vote_threshold;
            &&& reached ==> !n.is_vote_authority(who) && n.vote_reputation(who) == Seq::<
                AccountId,
            >::empty()
            &&& !reached ==> n.is_vote_authority(who) && n.vote_reputation(who)
                == v.vote_reputation(who).push(sender)
        }),
{
    lemma_without_no_duplicates(v.vote_authorities, who);
}


/// Every call keeps the storage consistent: no account is twice an authority,
/// nobody has voted twice on one matter, and the proposal lists agree with their
/// indexes (given that no counter is at its largest value when it must grow).
pub proof fn law_every_call_keeps_consistency(
    v: ModuleView,
    origin: Origin,
    weather: Weather,
    hash: ProposalHash,
    who: AccountId,
    threshold: u64,
)
    requires
        v.consistent(),
        v.all_proposals_count < u64::MAX,
        forall|a: AccountId| v.owned_count(a) < u64::MAX,
        v.all_confirmed_proposals_count < u64::MAX,
    ensures
        v.with_proposal_authority(who).consistent(),
        v.without_proposal_authority(who).consistent(),
        v.with_vote_authority(who).consistent(),
        v.without_vote_authority(who).consistent(),
        (ModuleView { vote_threshold: threshold, ..v }).consistent(),
        v.proposal_step(origin, weather, hash).0.consistent(),
        v.vote_step(origin, hash).0.consistent(),
        v.proposal_reputation_step(origin, who).0.consistent(),
        v.vote_reputation_step(origin, who).0.consistent(),
{
    if !v.is_proposal_authority(who) {
        crate::module::lemma_push_no_duplicates(v.proposal_authorities, who);
    } else {
        lemma_without_no_duplicates(v.proposal_authorities, who);
    }
    if !v.is_vote_authority(who) {
        crate::module::lemma_push_no_duplicates(v.vote_authorities, who);
    } else {
        lemma_without_no_duplicates(v.vote_authorities, who);
    }
    v.lemma_same_votes(v.with_proposal_authority(who));
    v.lemma_same_votes(v.without_proposal_authority(who));
    v.lemma_same_votes(v.with_vote_authority(who));
    v.lemma_same_votes(v.without_vote_authority(who));
    v.lemma_same_votes(ModuleView { vote_threshold: threshold, ..v });
    if let Origin::Signed(sender) = origin {
        v.lemma_with_proposal(sender, weather@, hash);
        if !v.confirmations(hash).contains(sender) {
            v.lemma_with_vote(sender, hash);
        }
        if v.is_proposal_authority(who) && !v.proposal_reputation(who).contains(sender) {
            v.lemma_with_proposal_reputation_vote(sender, who);
        }
        if v.is_vote_authority(who) && !v.vote_reputation(who).contains(sender) {
            v.lemma_with_vote_reputation_vote(sender, who);
        }
    }
}

/// A vote to remove an authority counts at most once: the same vote again is
/// refused and changes nothing.
pub proof fn law_reputation_vote_once(v: ModuleView, sender: AccountId, who: AccountId)
    requires
        v.consistent(),
    ensures
        v.proposal_reputation_step(Origin::Signed(sender), who).1 is Ok ==> ({
            let n = v.proposal_reputation_step(Origin::Signed(sender), who).0;
            &&& n.proposal_reputation_step(Origin::Signed(sender), who).1 is Err
            &&& n.proposal_reputation_step(Origin::Signed(sender), who).0 == n
        }),
        v.vote_reputation_step(Origin::Signed(sender), who).1 is Ok ==> ({
            let n = v.vote_reputation_step(Origin::Signed(sender), who).0;
            &&& n.vote_reputation_step(Origin::Signed(sender), who).1 is Err
            &&& n.vote_reputation_step(Origin::Signed(sender), who).0 == n
        }),
{
    if v.proposal_reputation_step(Origin::Signed(sender), who).1 is Ok {
        lemma_without_no_duplicates(v.proposal_authorities, who);
        let votes = v.proposal_reputation(who).push(sender);
        assert(votes[votes.len() - 1] == sender);
    }
    if v.vote_reputation_step(Origin::Signed(sender), who).1 is Ok {
        lemma_without_no_duplicates(v.vote_authorities, who);
        let votes = v.vote_reputation(who).push(sender);
        assert(votes[votes.len() - 1] == sender);
    }
}

/// The storage after each of `voters`, in turn, votes for `hash`.
pub open spec fn after_votes(v: ModuleView, voters: Seq<AccountId>, hash: ProposalHash) -> ModuleView
    decreases voters.len(),
{
    if voters.len() == 0 {
        v
    } else {
        after_votes(v, voters.drop_last(), hash).vote_step(Origin::Signed(voters.last()), hash).0
    }
}

proof fn lemma_after_votes(v: ModuleView, voters: Seq<AccountId>, hash: ProposalHash)
    requires
        v.confirmations(hash) == Seq::<AccountId>::empty(),
        no_duplicates(voters),
        forall|i: int| 0 <= i < voters.len() ==> v.is_vote_authority(#[trigger] voters[i]),
        0 < v.vote_threshold,
        voters.len() <= v.vote_threshold,
        v.all_confirmed_proposals_count < u64::MAX,
    ensures
        ({
            let n = after_votes(v, voters, hash);
            &&& n.confirmations(hash) == voters
            &&& n.vote_authorities == v.vote_authorities
            &&& n.vote_threshold == v.vote_threshold
            &&& voters.len() < v.vote_threshold ==> {
                &&& n.all_confirmed_proposals_count == v.all_confirmed_proposals_count
                &&& n.all_confirmed_proposals_array == v.all_confirmed_proposals_array
                &&& n.all_confirmed_proposals_index == v.all_confirmed_proposals_index
            }
            &&& voters.len() == v.vote_threshold ==> {
                &&& n.all_confirmed_proposals_count == v.all_confirmed_proposals_count + 1
                &&& n.all_confirmed_proposals_array[v.all_confirmed_proposals_count] == hash
                &&& n.all_confirmed_proposals_index[hash] == v.all_confirmed_proposals_count
            }
        }),
    decreases voters.len(),
{
    if voters.len() == 0 {
    } else {
        let prefix = voters.drop_last();
        let last = voters.last();
        assert(no_duplicates(prefix));
        assert forall|i: int| 0 <= i < prefix.len() implies v.is_vote_authority(
            #[trigger] prefix[i],
        ) by {
            assert(prefix[i] == voters[i]);
        }
        lemma_after_votes(v, prefix, hash);
        let m = after_votes(v, prefix, hash);
        assert(v.is_vote_authority(voters[voters.len() - 1]));
        assert(!prefix.contains(last)) by {
            if prefix.contains(last) {
                let i = choose|i: int| 0 <= i < prefix.len() && prefix[i] == last;
                assert(voters[i] == voters[voters.len() - 1]);
            }
        }
        assert(m.confirmations(hash).push(last) =~= voters);
    }
}

/// Once as many distinct vote authorities as the threshold have voted for a
/// proposal that had no votes, it is confirmed: it stands
/// at the end of the list of confirmed proposals, and its votes are exactly
/// theirs.
pub proof fn law_threshold_votes_confirm(v: ModuleView, voters: Seq<AccountId>, hash: ProposalHash)
    requires
        v.confirmations(hash) == Seq::<AccountId>::empty(),
        no_duplicates(voters),
        forall|i: int| 0 <= i < voters.len() ==> v.is_vote_authority(#[trigger] voters[i]),
        0 < v.vote_threshold,
        voters.len() == v.vote_threshold,
        v.all_confirmed_proposals_count < u64::MAX,
    ensures
        ({
            let n = after_votes(v, voters, hash);
            &&& n.confirmations(hash) == voters
            &&& n.all_confirmed_proposals_count == v.all_confirmed_proposals_count + 1
            &&& n.all_confirmed_proposals_array[v.all_confirmed_proposals_count] == hash
            &&& n.all_confirmed_proposals_index[hash] == v.all_confirmed_proposals_count
        }),
{
    lemma_after_votes(v, voters, hash);
}


/// The storage after each of `voters`, in turn, votes to remove the proposal authority `who`.
pub open spec fn after_proposal_reputation_votes(v: ModuleView, voters: Seq<AccountId>, who: AccountId) -> ModuleView
    decreases voters.len(),
{
    if voters.len() == 0 {
        v
    } else {
        after_proposal_reputation_votes(v, voters.drop_last(), who).proposal_reputation_step(Origin::Signed(voters.last()), who).0
    }
}

proof fn lemma_after_proposal_reputation_votes(v: ModuleView, voters: Seq<AccountId>, who: AccountId)
    requires
        v.consistent(),
        v.is_proposal_authority(who),
        v.proposal_reputation(who) == Seq::<AccountId>::empty(),
        no_duplicates(voters),
        forall|i: int| 0 <= i < voters.len() ==> v.is_vote_authority(#[trigger] voters[i]),
        0 < v.vote_threshold,
        voters.len() <= v.vote_threshold,
    ensures
        ({
            let n = after_proposal_reputation_votes(v, voters, who);
            &&& n.consistent()
            &&& n.vote_threshold == v.vote_threshold
            &&& voters.len() < v.vote_threshold ==> {
                &&& n.proposal_reputation(who) == voters
                &&& n.proposal_authorities == v.proposal_authorities
                &&& n.vote_authorities == v.vote_authorities
            }
            &&& voters.len() == v.vote_threshold ==> {
                &&& !n.is_proposal_authority(who)
                &&& n.proposal_reputation(who) == Seq::<AccountId>::empty()
            }
        }),
    decreases voters.len(),
{
    if voters.len() == 0 {
    } else {
        let prefix = voters.drop_last();
        let last = voters.last();
        assert(no_duplicates(prefix));
        assert forall|i: int| 0 <= i < prefix.len() implies v.is_vote_authority(
            #[trigger] prefix[i],
        ) by {
            assert(prefix[i] == voters[i]);
        }
        lemma_after_proposal_reputation_votes(v, prefix, who);
        let m = after_proposal_reputation_votes(v, prefix, who);
        assert(v.is_vote_authority(voters[voters.len() - 1]));
        assert(!prefix.contains(last)) by {
            if prefix.contains(last) {
                let i = choose|i: int| 0 <= i < prefix.len() && prefix[i] == last;
                assert(voters[i] == voters[voters.len() - 1]);
            }
        }
        assert(m.proposal_reputation(who).push(last) =~= voters);
        m.lemma_with_proposal_reputation_vote(last, who);
        lemma_without_no_duplicates(m.proposal_authorities, who);
    }
}

/// Once as many distinct vote authorities as the threshold have voted to remove
/// the proposal authority `who`, which had no such votes, `who` is no longer a
/// proposal authority and its votes are cleared.
pub proof fn law_threshold_votes_kick_out_proposal_authority(v: ModuleView, voters: Seq<AccountId>, who: AccountId)
    requires
        v.consistent(),
        v.is_proposal_authority(who),
        v.proposal_reputation(who) == Seq::<AccountId>::empty(),
        no_duplicates(voters),
        forall|i: int| 0 <= i < voters.len() ==> v.is_vote_authority(#[trigger] voters[i]),
        0 < v.vote_threshold,
        voters.len() == v.vote_threshold,
    ensures
        ({
            let n = after_proposal_reputation_votes(v, voters, who);
            &&& !n.is_proposal_authority(who)
            &&& n.proposal_reputation(who) == Seq::<AccountId>::empty()
        }),
{
    lemma_after_proposal_reputation_votes(v, voters, who);
}

/// The storage after each of `voters`, in turn, votes to remove the vote authority `who`.
pub open spec fn after_vote_reputation_votes(v: ModuleView, voters: Seq<AccountId>, who: AccountId) -> ModuleView
    decreases voters.len(),
{
    if voters.len() == 0 {
        v
    } else {
        after_vote_reputation_votes(v, voters.drop_last(), who).vote_reputation_step(Origin::Signed(voters.last()), who).0
    }
}

proof fn lemma_after_vote_reputation_votes(v: ModuleView, voters: Seq<AccountId>, who: AccountId)
    requires
        v.consistent(),
        v.is_vote_authority(who),
        v.vote_reputation(who) == Seq::<AccountId>::empty(),
        no_duplicates(voters),
        forall|i: int| 0 <= i < voters.len() ==> v.is_vote_authority(#[trigger] voters[i]),
        0 < v.vote_threshold,
        voters.len() <= v.vote_threshold,
    ensures
        ({
            let n = after_vote_reputation_votes(v, voters, who);
            &&& n.consistent()
            &&& n.vote_threshold == v.vote_threshold
            &&& voters.len() < v.vote_threshold ==> {
                &&& n.vote_reputation(who) == voters
                &&& n.vote_authorities == v.vote_authorities
                &&& n.proposal_authorities == v.proposal_authorities
            }
            &&& voters.len() == v.vote_threshold ==> {
                &&& !n.is_vote_authority(who)
                &&& n.vote_reputation(who) == Seq::<AccountId>::empty()
            }
        }),
    decreases voters.len(),
{
    if voters.len() == 0 {
    } else {
        let prefix = voters.drop_last();
        let last = voters.last();
        assert(no_duplicates(prefix));
        assert forall|i: int| 0 <= i < prefix.len() implies v.is_vote_authority(
            #[trigger] prefix[i],
        ) by {
            assert(prefix[i] == voters[i]);
        }
        lemma_after_vote_reputation_votes(v, prefix, who);
        let m = after_vote_reputation_votes(v, prefix, who);
        assert(v.is_vote_authority(voters[voters.len() - 1]));
        assert(!prefix.contains(last)) by {
            if prefix.contains(last) {
                let i = choose|i: int| 0 <= i < prefix.len() && prefix[i] == last;
                assert(voters[i] == voters[voters.len() - 1]);
            }
        }
        assert(m.vote_reputation(who).push(last) =~= voters);
        m.lemma_with_vote_reputation_vote(last, who);
        lemma_without_no_duplicates(m.vote_authorities, who);
    }
}

/// Once as many distinct vote authorities as the threshold have voted to remove
/// the vote authority `who`, which had no such votes, `who` is no longer a
/// vote authority and its votes are cleared.
pub proof fn law_threshold_votes_kick_out_vote_authority(v: ModuleView, voters: Seq<AccountId>, who: AccountId)
    requires
        v.consistent(),
        v.is_vote_authority(who),
        v.vote_reputation(who) == Seq::<AccountId>::empty(),
        no_duplicates(voters),
        forall|i: int| 0 <= i < voters.len() ==> v.is_vote_authority(#[trigger] voters[i]),
        0 < v.vote_threshold,
        voters.len() == v.vote_threshold,
    ensures
        ({
            let n = after_vote_reputation_votes(v, voters, who);
            &&& !n.is_vote_authority(who)
            &&& n.vote_reputation(who) == Seq::<AccountId>::empty()
        }),
{
    lemma_after_vote_reputation_votes(v, voters, who);
}

/// Taking out the entry at `k` keeps every account other than the one at `k`:
/// it is in the list after exactly when it was before.
pub proof fn lemma_remove_keeps_others(s: Seq<AccountId>, k: int, x: AccountId)
    requires
        0 <= k < s.len(),
        s[k] != x,
    ensures
        s.remove(k).contains(x) <==> s.contains(x),
{
    let r = s.remove(k);
    if r.contains(x) {
        let i = choose|i: int| 0 <= i < r.len() && r[i] == x;
        let oi = if i < k { i } else { i + 1 };
        assert(s[oi] == x);
    }
    if s.contains(x) {
        let oi = choose|oi: int| 0 <= oi < s.len() && s[oi] == x;
        let i = if oi < k { oi } else { oi - 1 };
        assert(r[i] == x);
    }
}

/// A vote for `hash` touches no other proposal, and the confirmed list only
/// grows at its end: the votes recorded for every other proposal are unchanged,
/// every position of the confirmed list but the next keeps its proposal, every
/// other proposal's confirmed index is unchanged, and the list either stays as
/// it was or gains `hash` at the next position.
pub proof fn law_vote_touches_only_its_proposal(v: ModuleView, sender: AccountId, hash: ProposalHash)
    requires
        v.vote_step(Origin::Signed(sender), hash).1 is Ok,
        v.all_confirmed_proposals_count < u64::MAX,
    ensures
        ({
            let n = v.vote_step(Origin::Signed(sender), hash).0;
            &&& n.confirmations(hash) == v.confirmations(hash).push(sender)
            &&& forall|h: ProposalHash| h != hash ==> #[trigger] n.confirmations(h) == v.confirmations(h)
            &&& forall|i: u64|
                i != v.all_confirmed_proposals_count ==> {
                    &&& #[trigger] n.all_confirmed_proposals_array.contains_key(i)
                        == v.all_confirmed_proposals_array.contains_key(i)
                    &&& n.all_confirmed_proposals_array[i] == v.all_confirmed_proposals_array[i]
                }
            &&& forall|h: ProposalHash|
                h != hash ==> {
                    &&& #[trigger] n.all_confirmed_proposals_index.contains_key(h)
                        == v.all_confirmed_proposals_index.contains_key(h)
                    &&& n.all_confirmed_proposals_index[h] == v.all_confirmed_proposals_index[h]
                }
            &&& {
                ||| (n.all_confirmed_proposals_count == v.all_confirmed_proposals_count
                    && n.all_confirmed_proposals_array == v.all_confirmed_proposals_array
                    && n.all_confirmed_proposals_index == v.all_confirmed_proposals_index)
                ||| (n.all_confirmed_proposals_count == v.all_confirmed_proposals_count + 1
                    && n.all_confirmed_proposals_array.contains_key(v.all_confirmed_proposals_count)
                    && n.all_confirmed_proposals_array[v.all_confirmed_proposals_count] == hash
                    && n.all_confirmed_proposals_index[hash] == v.all_confirmed_proposals_count)
            }
        }),
{
    let n = v.vote_step(Origin::Signed(sender), hash).0;
    assert forall|h: ProposalHash| h != hash implies #[trigger] n.confirmations(h) == v.confirmations(
        h,
    ) by {
        assert(n.proposal_confirmation.contains_key(h) == v.proposal_confirmation.contains_key(h));
    }
}

/// A vote to remove the vote authority `who` removes nobody else: afterwards the
/// vote authorities are those before, or those before, in the same order, with
/// one entry of `who` taken out; every other account is a vote authority after
/// the vote exactly when it was before; the proposal authorities and the votes
/// against every other account are unchanged.
pub proof fn law_vote_reputation_removes_only_who(v: ModuleView, sender: AccountId, who: AccountId)
    requires
        v.vote_reputation_step(Origin::Signed(sender), who).1 is Ok,
    ensures
        ({
            let n = v.vote_reputation_step(Origin::Signed(sender), who).0;
            &&& n.proposal_authorities == v.proposal_authorities
            &&& {
                ||| n.vote_authorities == v.vote_authorities
                ||| exists|k: int|
                    0 <= k < v.vote_authorities.len() && v.vote_authorities[k] == who
                        && n.vote_authorities == v.vote_authorities.remove(k)
            }
            &&& forall|x: AccountId|
                x != who ==> (#[trigger] n.vote_authorities.contains(x)
                    <==> v.vote_authorities.contains(x))
            &&& forall|a: AccountId| a != who ==> #[trigger] n.vote_reputation(a) == v.vote_reputation(a)
            &&& forall|a: AccountId| #[trigger] n.proposal_reputation(a) == v.proposal_reputation(a)
        }),
{
    let n = v.vote_reputation_step(Origin::Signed(sender), who).0;
    if n.vote_authorities != v.vote_authorities {
        lemma_first_index(v.vote_authorities, who);
        let k = first_index(v.vote_authorities, who);
        assert(n.vote_authorities == v.vote_authorities.remove(k));
        assert forall|x: AccountId| x != who implies (#[trigger] n.vote_authorities.contains(x)
            <==> v.vote_authorities.contains(x)) by {
            lemma_remove_keeps_others(v.vote_authorities, k, x);
        }
    }
    assert forall|a: AccountId| a != who implies #[trigger] n.vote_reputation(a) == v.vote_reputation(
        a,
    ) by {
        assert(n.vote_authority_reputation.contains_key(a) == v.vote_authority_reputation.contains_key(
            a,
        ));
    }
}

/// A vote to remove the proposal authority `who` removes nobody else: afterwards
/// the proposal authorities are those before, or those before, in the same
/// order, with one entry of `who` taken out; every other account is a proposal
/// authority after the vote exactly when it was before; the vote authorities and
/// the votes against every other account are unchanged.
pub proof fn law_proposal_reputation_removes_only_who(
    v: ModuleView,
    sender: AccountId,
    who: AccountId,
)
    requires
        v.proposal_reputation_step(Origin::Signed(sender), who).1 is Ok,
    ensures
        ({
            let n = v.proposal_reputation_step(Origin::Signed(sender), who).0;
            &&& n.vote_authorities == v.vote_authorities
            &&& {
                ||| n.proposal_authorities == v.proposal_authorities
                ||| exists|k: int|
                    0 <= k < v.proposal_authorities.len() && v.proposal_authorities[k] == who
                        && n.proposal_authorities == v.proposal_authorities.remove(k)
            }
            &&& forall|x: AccountId|
                x != who ==> (#[trigger] n.proposal_authorities.contains(x)
                    <==> v.proposal_authorities.contains(x))
            &&& forall|a: AccountId|
                a != who ==> #[trigger] n.proposal_reputation(a) == v.proposal_reputation(a)
            &&& forall|a: AccountId| #[trigger] n.vote_reputation(a) == v.vote_reputation(a)
        }),
{
    let n = v.proposal_reputation_step(Origin::Signed(sender), who).0;
    if n.proposal_authorities != v.proposal_authorities {
        lemma_first_index(v.proposal_authorities, who);
        let k = first_index(v.proposal_authorities, who);
        assert(n.proposal_authorities == v.proposal_authorities.remove(k));
        assert forall|x: AccountId| x != who implies (#[trigger] n.proposal_authorities.contains(x)
            <==> v.proposal_authorities.contains(x)) by {
            lemma_remove_keeps_others(v.proposal_authorities, k, x);
        }
    }
    assert forall|a: AccountId| a != who implies #[trigger] n.proposal_reputation(a)
        == v.proposal_reputation(a) by {
        assert(n.proposal_authority_reputation.contains_key(a)
            == v.proposal_authority_reputation.contains_key(a));
    }
}

} // verus!

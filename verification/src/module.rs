//! The pallet's storage and its dispatchable calls.

use vstd::prelude::*;

use crate::offchain::{proposal_hash, proposal_hash_of};
use crate::table::Table;
use crate::types::{
    ensure_root, ensure_signed, AccountId, DispatchError, Event, HttpError, Origin, ProposalHash,
    Weather, WeatherView,
};

verus! {

/// The first position of `who` in `s`.
pub open spec fn first_index(s: Seq<AccountId>, who: AccountId) -> int {
    choose|i: int| 0 <= i < s.len() && s[i] == who && forall|j: int| 0 <= j < i ==> s[j] != who
}

/// `s` with the first occurrence of `who` taken out.
pub open spec fn without_account(s: Seq<AccountId>, who: AccountId) -> Seq<AccountId> {
    s.remove(first_index(s, who))
}

/// No account occurs twice in `s`.
pub open spec fn no_duplicates(s: Seq<AccountId>) -> bool {
    forall|i: int, j: int| 0 <= i < j < s.len() ==> s[i] != s[j]
}

/// The first position of `who` is where `who` stands, with no earlier `who`.
pub proof fn lemma_first_index(s: Seq<AccountId>, who: AccountId)
    requires
        s.contains(who),
    ensures
        0 <= first_index(s, who) < s.len(),
        s[first_index(s, who)] == who,
        forall|j: int| 0 <= j < first_index(s, who) ==> s[j] != who,
{
    lemma_first_index_below(s, who, s.len() as int);
}

proof fn lemma_first_index_below(s: Seq<AccountId>, who: AccountId, n: int)
    requires
        0 <= n <= s.len(),
        exists|i: int| 0 <= i < n && s[i] == who,
    ensures
        exists|i: int| 0 <= i < s.len() && s[i] == who && forall|j: int| 0 <= j < i ==> s[j] != who,
    decreases n,
{
    if exists|i: int| 0 <= i < n - 1 && s[i] == who {
        lemma_first_index_below(s, who, n - 1);
    } else {
        assert(s[n - 1] == who);
        assert(forall|j: int| 0 <= j < n - 1 ==> s[j] != who);
    }
}

/// Adding an account that is not there keeps the list free of duplicates.
pub proof fn lemma_push_no_duplicates(s: Seq<AccountId>, who: AccountId)
    requires
        no_duplicates(s),
        !s.contains(who),
    ensures
        no_duplicates(s.push(who)),
{
    assert forall|i: int, j: int| 0 <= i < j < s.push(who).len() implies s.push(who)[i] != s.push(
        who,
    )[j] by {
        if j == s.len() {
            assert(s[i] != who);
        }
    }
}

/// Taking an account out keeps the list free of duplicates.
pub proof fn lemma_without_no_duplicates(s: Seq<AccountId>, who: AccountId)
    requires
        no_duplicates(s),
        s.contains(who),
    ensures
        no_duplicates(without_account(s, who)),
        !without_account(s, who).contains(who),
        forall|x: AccountId| x != who ==> (#[trigger] without_account(s, who).contains(x) <==> s.contains(x)),
{
    lemma_first_index(s, who);
    let k = first_index(s, who);
    let r = without_account(s, who);
    assert forall|i: int, j: int| 0 <= i < j < r.len() implies r[i] != r[j] by {
        let oi = if i < k { i } else { i + 1 };
        let oj = if j < k { j } else { j + 1 };
        assert(r[i] == s[oi]);
        assert(r[j] == s[oj]);
    }
    assert forall|x: AccountId| x != who implies (#[trigger] r.contains(x) <==> s.contains(x)) by {
        if r.contains(x) {
            let i = choose|i: int| 0 <= i < r.len() && r[i] == x;
            let oi = if i < k { i } else { i + 1 };
            assert(r[i] == s[oi]);
        }
        if s.contains(x) {
            let oi = choose|oi: int| 0 <= oi < s.len() && s[oi] == x;
            assert(oi != k);
            let i = if oi < k { oi } else { oi - 1 };
            assert(r[i] == s[oi]);
        }
    }
    if r.contains(who) {
        let i = choose|i: int| 0 <= i < r.len() && r[i] == who;
        let oi = if i < k { i } else { i + 1 };
        assert(r[i] == s[oi]);
        assert(s[k] == who);
    }
}

/// Whether `who` occurs in `list`.
fn contains_account(list: &Vec<AccountId>, who: AccountId) -> (found: bool)
    ensures
        found == list@.contains(who),
{
    let n = list.len();
    let mut i: usize = 0;
    while i < n
        invariant
            n == list@.len(),
            0 <= i <= n,
            forall|j: int| 0 <= j < i ==> list@[j] != who,
        decreases n - i,
    {
        if list[i] == who {
            assert(list@[i as int] == who);
            return true;
        }
        i = i + 1;
    }
    false
}

/// Takes the first occurrence of `who` out of `list`.
fn remove_account(list: &mut Vec<AccountId>, who: AccountId)
    requires
        old(list)@.contains(who),
    ensures
        final(list)@ == without_account(old(list)@, who),
{
    let n = list.len();
    let mut i: usize = 0;
    while i < n
        invariant
            n == list@.len(),
            0 <= i <= n,
            list@ == old(list)@,
            list@.contains(who),
            forall|j: int| 0 <= j < i ==> list@[j] != who,
        decreases n - i,
    {
        if list[i] == who {
            proof {
                lemma_first_index(list@, who);
                let k = first_index(list@, who);
                assert(k == i) by {
                    if k < i {
                        assert(list@[k] != who);
                    } else if k > i {
                        assert(list@[i as int] == who);
                    }
                }
            }
            list.remove(i);
            return;
        }
        i = i + 1;
    }
    proof {
        let j = choose|j: int| 0 <= j < list@.len() && list@[j] == who;
        assert(list@[j] != who);
    }
}

/// The hash of all zero bytes, which storage reads give where nothing is stored.
pub open spec fn is_zero_hash(h: ProposalHash) -> bool {
    forall|i: int| 0 <= i < 32 ==> h[i] == 0
}

/// The pallet's storage, as values.
pub struct ModuleView {
    pub proposal_authorities: Seq<AccountId>,
    pub vote_authorities: Seq<AccountId>,
    pub vote_threshold: u64,
    pub proposals: Map<ProposalHash, WeatherView>,
    pub proposal_owner: Map<ProposalHash, AccountId>,
    pub all_proposals_array: Map<u64, ProposalHash>,
    pub all_proposals_index: Map<ProposalHash, u64>,
    pub all_proposals_count: u64,
    pub owned_proposals_array: Map<(AccountId, u64), ProposalHash>,
    pub owned_proposals_index: Map<ProposalHash, (AccountId, u64)>,
    pub owned_proposals_count: Map<AccountId, u64>,
    pub proposal_confirmation: Map<ProposalHash, Seq<AccountId>>,
    pub all_confirmed_proposals_array: Map<u64, ProposalHash>,
    pub all_confirmed_proposals_index: Map<ProposalHash, u64>,
    pub all_confirmed_proposals_count: u64,
    pub proposal_authority_reputation: Map<AccountId, Seq<AccountId>>,
    pub vote_authority_reputation: Map<AccountId, Seq<AccountId>>,
    pub nonce: u64,
}

impl ModuleView {
    /// The storage of a fresh chain.
    pub open spec fn genesis() -> ModuleView {
        ModuleView {
            proposal_authorities: Seq::empty(),
            vote_authorities: Seq::empty(),
            vote_threshold: 0,
            proposals: Map::empty(),
            proposal_owner: Map::empty(),
            all_proposals_array: Map::empty(),
            all_proposals_index: Map::empty(),
            all_proposals_count: 0,
            owned_proposals_array: Map::empty(),
            owned_proposals_index: Map::empty(),
            owned_proposals_count: Map::empty(),
            proposal_confirmation: Map::empty(),
            all_confirmed_proposals_array: Map::empty(),
            all_confirmed_proposals_index: Map::empty(),
            all_confirmed_proposals_count: 0,
            proposal_authority_reputation: Map::empty(),
            vote_authority_reputation: Map::empty(),
            nonce: 0,
        }
    }

    pub open spec fn is_proposal_authority(self, who: AccountId) -> bool {
        self.proposal_authorities.contains(who)
    }

    pub open spec fn is_vote_authority(self, who: AccountId) -> bool {
        self.vote_authorities.contains(who)
    }

    /// The votes cast for a proposal (none where nothing is stored).
    pub open spec fn confirmations(self, hash: ProposalHash) -> Seq<AccountId> {
        if self.proposal_confirmation.contains_key(hash) {
            self.proposal_confirmation[hash]
        } else {
            Seq::empty()
        }
    }

    /// The number of proposals `who` has submitted (0 where nothing is stored).
    pub open spec fn owned_count(self, who: AccountId) -> u64 {
        if self.owned_proposals_count.contains_key(who) {
            self.owned_proposals_count[who]
        } else {
            0
        }
    }

    /// The votes cast to kick out the proposal authority `who`.
    pub open spec fn proposal_reputation(self, who: AccountId) -> Seq<AccountId> {
        if self.proposal_authority_reputation.contains_key(who) {
            self.proposal_authority_reputation[who]
        } else {
            Seq::empty()
        }
    }

    /// The votes cast to kick out the vote authority `who`.
    pub open spec fn vote_reputation(self, who: AccountId) -> Seq<AccountId> {
        if self.vote_authority_reputation.contains_key(who) {
            self.vote_authority_reputation[who]
        } else {
            Seq::empty()
        }
    }

    /// The storage after `who` is made a proposal authority.
    pub open spec fn with_proposal_authority(self, who: AccountId) -> ModuleView {
        if self.is_proposal_authority(who) {
            self
        } else {
            ModuleView { proposal_authorities: self.proposal_authorities.push(who), ..self }
        }
    }

    /// The storage after `who` stops being a proposal authority.
    pub open spec fn without_proposal_authority(self, who: AccountId) -> ModuleView {
        if self.is_proposal_authority(who) {
            ModuleView {
                proposal_authorities: without_account(self.proposal_authorities, who),
                ..self
            }
        } else {
            self
        }
    }

    /// The storage after `who` is made a vote authority.
    pub open spec fn with_vote_authority(self, who: AccountId) -> ModuleView {
        if self.is_vote_authority(who) {
            self
        } else {
            ModuleView { vote_authorities: self.vote_authorities.push(who), ..self }
        }
    }

    /// The storage after `who` stops being a vote authority.
    pub open spec fn without_vote_authority(self, who: AccountId) -> ModuleView {
        if self.is_vote_authority(who) {
            ModuleView { vote_authorities: without_account(self.vote_authorities, who), ..self }
        } else {
            self
        }
    }
}

/// The pallet: its storage, and the calls that change it.
pub struct Module {
    proposal_authorities: Vec<AccountId>,
    vote_authorities: Vec<AccountId>,
    vote_threshold: u64,
    proposals: Table<ProposalHash, Weather>,
    proposal_owner: Table<ProposalHash, AccountId>,
    all_proposals_array: Table<u64, ProposalHash>,
    all_proposals_index: Table<ProposalHash, u64>,
    all_proposals_count: u64,
    owned_proposals_array: Table<(AccountId, u64), ProposalHash>,
    owned_proposals_index: Table<ProposalHash, (AccountId, u64)>,
    owned_proposals_count: Table<AccountId, u64>,
    proposal_confirmation: Table<ProposalHash, Vec<AccountId>>,
    all_confirmed_proposals_array: Table<u64, ProposalHash>,
    all_confirmed_proposals_index: Table<ProposalHash, u64>,
    all_confirmed_proposals_count: u64,
    proposal_authority_reputation: Table<AccountId, Vec<AccountId>>,
    vote_authority_reputation: Table<AccountId, Vec<AccountId>>,
    nonce: u64,
}

/// A table of weather reports, by the contents of each.
pub open spec fn weather_map(m: Map<ProposalHash, Weather>) -> Map<ProposalHash, WeatherView> {
    Map::new(|h: ProposalHash| m.contains_key(h), |h: ProposalHash| m[h]@)
}

/// A table of account lists, by the contents of each.
pub open spec fn accounts_map<K>(m: Map<K, Vec<AccountId>>) -> Map<K, Seq<AccountId>> {
    Map::new(|k: K| m.contains_key(k), |k: K| m[k]@)
}

/// Storing a report changes the table's contents at that key only.
pub proof fn lemma_weather_map_insert(m: Map<ProposalHash, Weather>, h: ProposalHash, w: Weather)
    ensures
        weather_map(m.insert(h, w)) == weather_map(m).insert(h, w@),
{
    assert(weather_map(m.insert(h, w)) =~= weather_map(m).insert(h, w@));
}

/// Storing an account list changes the table's contents at that key only.
pub proof fn lemma_accounts_map_insert<K>(m: Map<K, Vec<AccountId>>, k: K, v: Vec<AccountId>)
    ensures
        accounts_map(m.insert(k, v)) == accounts_map(m).insert(k, v@),
{
    assert(accounts_map(m.insert(k, v)) =~= accounts_map(m).insert(k, v@));
}

/// Dropping an account list drops the table's contents at that key only.
pub proof fn lemma_accounts_map_remove<K>(m: Map<K, Vec<AccountId>>, k: K)
    ensures
        accounts_map(m.remove(k)) == accounts_map(m).remove(k),
{
    assert(accounts_map(m.remove(k)) =~= accounts_map(m).remove(k));
}

impl View for Module {
    type V = ModuleView;

    closed spec fn view(&self) -> ModuleView {
        ModuleView {
            proposal_authorities: self.proposal_authorities@,
            vote_authorities: self.vote_authorities@,
            vote_threshold: self.vote_threshold,
            proposals: weather_map(self.proposals@),
            proposal_owner: self.proposal_owner@,
            all_proposals_array: self.all_proposals_array@,
            all_proposals_index: self.all_proposals_index@,
            all_proposals_count: self.all_proposals_count,
            owned_proposals_array: self.owned_proposals_array@,
            owned_proposals_index: self.owned_proposals_index@,
            owned_proposals_count: self.owned_proposals_count@,
            proposal_confirmation: accounts_map(self.proposal_confirmation@),
            all_confirmed_proposals_array: self.all_confirmed_proposals_array@,
            all_confirmed_proposals_index: self.all_confirmed_proposals_index@,
            all_confirmed_proposals_count: self.all_confirmed_proposals_count,
            proposal_authority_reputation: accounts_map(self.proposal_authority_reputation@),
            vote_authority_reputation: accounts_map(self.vote_authority_reputation@),
            nonce: self.nonce,
        }
    }
}

impl Module {
    /// Well-formedness: every table keeps its keys distinct, and the storage
    /// meets [`ModuleView::consistent`].
    pub closed spec fn wf(&self) -> bool {
        &&& self.tables_wf()
        &&& self@.consistent()
    }

    /// Every table keeps its keys distinct.
    closed spec fn tables_wf(&self) -> bool {
        &&& self.proposals.wf()
        &&& self.proposal_owner.wf()
        &&& self.all_proposals_array.wf()
        &&& self.all_proposals_index.wf()
        &&& self.owned_proposals_array.wf()
        &&& self.owned_proposals_index.wf()
        &&& self.owned_proposals_count.wf()
        &&& self.proposal_confirmation.wf()
        &&& self.all_confirmed_proposals_array.wf()
        &&& self.all_confirmed_proposals_index.wf()
        &&& self.proposal_authority_reputation.wf()
        &&& self.vote_authority_reputation.wf()
    }

    /// A well-formed pallet's storage is consistent.
    pub proof fn lemma_wf_consistent(&self)
        requires
            self.wf(),
        ensures
            self@.consistent(),
    {
    }

    /// A pallet with the storage of a fresh chain.
    pub fn new() -> (m: Module)
        ensures
            m.wf(),
            m@ == ModuleView::genesis(),
    {
        let m = Module {
            proposal_authorities: Vec::new(),
            vote_authorities: Vec::new(),
            vote_threshold: 0,
            proposals: Table::new(),
            proposal_owner: Table::new(),
            all_proposals_array: Table::new(),
            all_proposals_index: Table::new(),
            all_proposals_count: 0,
            owned_proposals_array: Table::new(),
            owned_proposals_index: Table::new(),
            owned_proposals_count: Table::new(),
            proposal_confirmation: Table::new(),
            all_confirmed_proposals_array: Table::new(),
            all_confirmed_proposals_index: Table::new(),
            all_confirmed_proposals_count: 0,
            proposal_authority_reputation: Table::new(),
            vote_authority_reputation: Table::new(),
            nonce: 0,
        };
        assert(m@.proposals =~= Map::empty());
        assert(m@.proposal_confirmation =~= Map::empty());
        assert(m@.proposal_authority_reputation =~= Map::empty());
        assert(m@.vote_authority_reputation =~= Map::empty());
        m
    }

    /// Whether `who` may send weather proposals.
    pub fn is_proposal_authority(&self, who: AccountId) -> (r: bool)
        ensures
            r == self@.is_proposal_authority(who),
    {
        contains_account(&self.proposal_authorities, who)
    }

    /// Whether `who` may vote.
    pub fn is_vote_authority(&self, who: AccountId) -> (r: bool)
        ensures
            r == self@.is_vote_authority(who),
    {
        contains_account(&self.vote_authorities, who)
    }

    /// Takes `who` out of the proposal authorities.
    fn remove_proposal_authority(&mut self, who: AccountId)
        requires
            old(self).tables_wf(),
            old(self)@.is_proposal_authority(who),
        ensures
            final(self).tables_wf(),
            final(self)@ == old(self)@.without_proposal_authority(who),
    {
        remove_account(&mut self.proposal_authorities, who);
    }

    /// Takes `who` out of the vote authorities.
    fn remove_vote_authority(&mut self, who: AccountId)
        requires
            old(self).tables_wf(),
            old(self)@.is_vote_authority(who),
        ensures
            final(self).tables_wf(),
            final(self)@ == old(self)@.without_vote_authority(who),
    {
        remove_account(&mut self.vote_authorities, who);
    }

    /// Makes `who` a proposal authority. Root only.
    pub fn add_proposal_authority(&mut self, origin: Origin, who: AccountId) -> (r: Result<
        Event,
        DispatchError,
    >)
        requires
            old(self).wf(),
        ensures
            final(self).wf(),
            origin == Origin::Root ==> r == Ok::<Event, DispatchError>(
                Event::ProposalAuthoritiesAdded(who),
            ) && final(self)@ == old(self)@.with_proposal_authority(who),
            origin != Origin::Root ==> r == Err::<Event, DispatchError>(DispatchError::BadOrigin)
                && final(self)@ == old(self)@,
    {
        match ensure_root(origin) {
            Err(e) => return Err(e),
            Ok(()) => {},
        }
        if !self.is_proposal_authority(who) {
            let ghost before = self@;
            proof {
                lemma_push_no_duplicates(self.proposal_authorities@, who);
            }
            self.proposal_authorities.push(who);
            proof {
                before.lemma_same_votes(self@);
            }
        }
        Ok(Event::ProposalAuthoritiesAdded(who))
    }

    /// Takes `who` out of the proposal authorities, if there. Root only.
    pub fn delete_proposal_authority(&mut self, origin: Origin, who: AccountId) -> (r: Result<
        Event,
        DispatchError,
    >)
        requires
            old(self).wf(),
        ensures
            final(self).wf(),
            origin == Origin::Root ==> r == Ok::<Event, DispatchError>(
                Event::ProposalAuthoritiesDeleted(who),
            ) && final(self)@ == old(self)@.without_proposal_authority(who),
            origin != Origin::Root ==> r == Err::<Event, DispatchError>(DispatchError::BadOrigin)
                && final(self)@ == old(self)@,
    {
        match ensure_root(origin) {
            Err(e) => return Err(e),
            Ok(()) => {},
        }
        if self.is_proposal_authority(who) {
            let ghost before = self@;
            proof {
                lemma_without_no_duplicates(self.proposal_authorities@, who);
            }
            self.remove_proposal_authority(who);
            proof {
                before.lemma_same_votes(self@);
            }
        }
        Ok(Event::ProposalAuthoritiesDeleted(who))
    }

    /// Makes `who` a vote authority. Root only.
    pub fn add_vote_authority(&mut self, origin: Origin, who: AccountId) -> (r: Result<
        Event,
        DispatchError,
    >)
        requires
            old(self).wf(),
        ensures
            final(self).wf(),
            origin == Origin::Root ==> r == Ok::<Event, DispatchError>(
                Event::VoteAuthoritiesAdded(who),
            ) && final(self)@ == old(self)@.with_vote_authority(who),
            origin != Origin::Root ==> r == Err::<Event, DispatchError>(DispatchError::BadOrigin)
                && final(self)@ == old(self)@,
    {
        match ensure_root(origin) {
            Err(e) => return Err(e),
            Ok(()) => {},
        }
        if !self.is_vote_authority(who) {
            let ghost before = self@;
            proof {
                lemma_push_no_duplicates(self.vote_authorities@, who);
            }
            self.vote_authorities.push(who);
            proof {
                before.lemma_same_votes(self@);
            }
        }
        Ok(Event::VoteAuthoritiesAdded(who))
    }

    /// Takes `who` out of the vote authorities, if there. Root only.
    pub fn delete_vote_authority(&mut self, origin: Origin, who: AccountId) -> (r: Result<
        Event,
        DispatchError,
    >)
        requires
            old(self).wf(),
        ensures
            final(self).wf(),
            origin == Origin::Root ==> r == Ok::<Event, DispatchError>(
                Event::VoteAuthoritiesDeleted(who),
            ) && final(self)@ == old(self)@.without_vote_authority(who),
            origin != Origin::Root ==> r == Err::<Event, DispatchError>(DispatchError::BadOrigin)
                && final(self)@ == old(self)@,
    {
        match ensure_root(origin) {
            Err(e) => return Err(e),
            Ok(()) => {},
        }
        if self.is_vote_authority(who) {
            let ghost before = self@;
            proof {
                lemma_without_no_duplicates(self.vote_authorities@, who);
            }
            self.remove_vote_authority(who);
            proof {
                before.lemma_same_votes(self@);
            }
        }
        Ok(Event::VoteAuthoritiesDeleted(who))
    }

    /// Files a weather proposal under `hash`. Only a proposal authority may.
    pub fn submit_weather_proposal(
        &mut self,
        origin: Origin,
        weather: Weather,
        hash: ProposalHash,
    ) -> (r: Result<Event, DispatchError>)
        requires
            old(self).wf(),
            origin matches Origin::Signed(sender) ==> (old(self)@.is_proposal_authority(sender)
                ==> old(self)@.all_proposals_count < u64::MAX && old(self)@.owned_count(sender)
                < u64::MAX),
        ensures
            final(self).wf(),
            (final(self)@, r) == old(self)@.proposal_step(origin, weather, hash),
    {
        let sender = match ensure_signed(origin) {
            Ok(sender) => sender,
            Err(e) => return Err(e),
        };
        if !self.is_proposal_authority(sender) {
            return Err(
                DispatchError::Other("submit_weather_proposal: sender is not a proposal authority."),
            );
        }
        let ghost before = self@;
        let stored = weather.clone();
        proof {
            before.lemma_with_proposal(sender, weather@, hash);
            lemma_weather_map_insert(self.proposals@, hash, stored);
        }
        self.proposals.insert(hash, stored);
        self.proposal_owner.insert(hash, sender);

        let count = self.all_proposals_count;
        self.all_proposals_array.insert(count, hash);
        self.all_proposals_index.insert(hash, count);
        self.all_proposals_count = count + 1;

        let owned = match self.owned_proposals_count.get(&sender) {
            Some(n) => *n,
            None => 0,
        };
        self.owned_proposals_array.insert((sender, owned), hash);
        self.owned_proposals_index.insert(hash, (sender, owned));
        self.owned_proposals_count.insert(sender, owned + 1);
        assert(self@ == before.with_proposal(sender, weather@, hash));
        Ok(Event::WeatherProposalSubmitted(sender, hash, weather))
    }

    /// Records the signer's vote for the proposal `hash`. Only a vote authority may
    /// vote, once. The proposal is confirmed, that is appended to the list of
    /// confirmed proposals, when with this vote its count equals the threshold; a
    /// count that passes a threshold lowered under it confirms the proposal too,
    /// unless it is already confirmed (so that later votes do not list it again).
    /// A count that meets a raised threshold confirms a proposal again.
    pub fn submit_weather_vote(&mut self, origin: Origin, hash: ProposalHash) -> (r: Result<
        Event,
        DispatchError,
    >)
        requires
            old(self).wf(),
            origin matches Origin::Signed(sender) ==> (old(self)@.is_vote_authority(sender)
                && !old(self)@.confirmations(hash).contains(sender) && old(self)@.vote_confirms(hash)
                ==> old(self)@.all_confirmed_proposals_count < u64::MAX),
        ensures
            final(self).wf(),
            (final(self)@, r) == old(self)@.vote_step(origin, hash),
    {
        let sender = match ensure_signed(origin) {
            Ok(sender) => sender,
            Err(e) => return Err(e),
        };
        if !self.is_vote_authority(sender) {
            return Err(DispatchError::Other("submit_weather_vote: sender is not a vote authority."));
        }
        let voted = match self.proposal_confirmation.get(&hash) {
            Some(votes) => contains_account(votes, sender),
            None => false,
        };
        if voted {
            return Err(DispatchError::Other("submit_weather_vote: sender has voted."));
        }
        let ghost before = self@;
        proof {
            before.lemma_with_vote(sender, hash);
        }
        let ghost table0 = self.proposal_confirmation@;
        let mut votes = match self.proposal_confirmation.take(&hash) {
            Some(votes) => votes,
            None => Vec::new(),
        };
        votes.push(sender);
        assert(votes@ == before.confirmations(hash).push(sender));
        let count = votes.len() as u64;
        let confirmed = self.all_confirmed_proposals_index.get(&hash).is_some();
        proof {
            lemma_accounts_map_remove(table0, hash);
            lemma_accounts_map_insert(table0.remove(hash), hash, votes);
            assert(accounts_map(table0).remove(hash).insert(hash, votes@) =~= accounts_map(
                table0,
            ).insert(hash, votes@));
        }
        self.proposal_confirmation.insert(hash, votes);
        if count == self.vote_threshold || (count > self.vote_threshold && !confirmed) {
            let c = self.all_confirmed_proposals_count;
            self.all_confirmed_proposals_array.insert(c, hash);
            self.all_confirmed_proposals_index.insert(hash, c);
            self.all_confirmed_proposals_count = c + 1;
        }
        assert(self@ == before.with_vote(sender, hash));
        Ok(Event::WeatherVoteSubmitted(sender, hash))
    }

    /// Records the signer's vote to remove the proposal authority `who`; when the votes reach
    /// or pass the threshold, `who` is removed and its votes are cleared. Only a vote
    /// authority may vote, once.
    pub fn submit_proposal_authority_reputation(&mut self, origin: Origin, who: AccountId) -> (r: Result<
        Event,
        DispatchError,
    >)
        requires
            old(self).wf(),
        ensures
            final(self).wf(),
            (final(self)@, r) == old(self)@.proposal_reputation_step(origin, who),
    {
        let sender = match ensure_signed(origin) {
            Ok(sender) => sender,
            Err(e) => return Err(e),
        };
        if !self.is_vote_authority(sender) {
            return Err(DispatchError::Other("submit_proposal_authority_reputation: sender is not a vote authority."));
        }
        if !self.is_proposal_authority(who) {
            return Err(DispatchError::Other("submit_proposal_authority_reputation: proposer is not a proposal authority."));
        }
        let voted = match self.proposal_authority_reputation.get(&who) {
            Some(votes) => contains_account(votes, sender),
            None => false,
        };
        if voted {
            return Err(DispatchError::Other("submit_proposal_authority_reputation: sender has voted."));
        }
        let ghost before = self@;
        proof {
            before.lemma_with_proposal_reputation_vote(sender, who);
        }
        let ghost table0 = self.proposal_authority_reputation@;
        let mut votes = match self.proposal_authority_reputation.take(&who) {
            Some(votes) => votes,
            None => Vec::new(),
        };
        votes.push(sender);
        assert(votes@ == before.proposal_reputation(who).push(sender));
        let count = votes.len() as u64;
        proof {
            lemma_accounts_map_remove(table0, who);
        }
        if count >= self.vote_threshold {
            self.remove_proposal_authority(who);
        } else {
            proof {
                lemma_accounts_map_insert(table0.remove(who), who, votes);
                assert(accounts_map(table0).remove(who).insert(who, votes@) =~= accounts_map(
                    table0,
                ).insert(who, votes@));
            }
            self.proposal_authority_reputation.insert(who, votes);
        }
        assert(self@ == before.with_proposal_reputation_vote(sender, who));
        Ok(Event::ProposalAuthorityReputationVoteSubmitted(sender, who))
    }

    /// Records the signer's vote to remove the vote authority `who`; when the votes reach
    /// or pass the threshold, `who` is removed and its votes are cleared. Only a vote
    /// authority may vote, once.
    pub fn submit_vote_authority_reputation(&mut self, origin: Origin, who: AccountId) -> (r: Result<
        Event,
        DispatchError,
    >)
        requires
            old(self).wf(),
        ensures
            final(self).wf(),
            (final(self)@, r) == old(self)@.vote_reputation_step(origin, who),
    {
        let sender = match ensure_signed(origin) {
            Ok(sender) => sender,
            Err(e) => return Err(e),
        };
        if !self.is_vote_authority(sender) {
            return Err(DispatchError::Other("submit_vote_authority_reputation: sender is not a vote authority."));
        }
        if !self.is_vote_authority(who) {
            return Err(DispatchError::Other("submit_vote_authority_reputation: user is not a vote authority."));
        }
        let voted = match self.vote_authority_reputation.get(&who) {
            Some(votes) => contains_account(votes, sender),
            None => false,
        };
        if voted {
            return Err(DispatchError::Other("submit_vote_authority_reputation: sender has voted."));
        }
        let ghost before = self@;
        proof {
            before.lemma_with_vote_reputation_vote(sender, who);
        }
        let ghost table0 = self.vote_authority_reputation@;
        let mut votes = match self.vote_authority_reputation.take(&who) {
            Some(votes) => votes,
            None => Vec::new(),
        };
        votes.push(sender);
        assert(votes@ == before.vote_reputation(who).push(sender));
        let count = votes.len() as u64;
        proof {
            lemma_accounts_map_remove(table0, who);
        }
        if count >= self.vote_threshold {
            self.remove_vote_authority(who);
        } else {
            proof {
                lemma_accounts_map_insert(table0.remove(who), who, votes);
                assert(accounts_map(table0).remove(who).insert(who, votes@) =~= accounts_map(
                    table0,
                ).insert(who, votes@));
            }
            self.vote_authority_reputation.insert(who, votes);
        }
        assert(self@ == before.with_vote_reputation_vote(sender, who));
        Ok(Event::VoteAuthorityReputationVoteSubmitted(sender, who))
    }

    /// The accounts that may send weather proposals.
    pub fn proposal_authorities(&self) -> (r: &Vec<AccountId>)
        ensures
            r@ == self@.proposal_authorities,
    {
        &self.proposal_authorities
    }

    /// The accounts that may vote.
    pub fn vote_authorities(&self) -> (r: &Vec<AccountId>)
        ensures
            r@ == self@.vote_authorities,
    {
        &self.vote_authorities
    }

    /// How many votes confirm a proposal or remove an authority.
    pub fn vote_threshold(&self) -> (r: u64)
        ensures
            r == self@.vote_threshold,
    {
        self.vote_threshold
    }

    /// How many proposals have been filed.
    pub fn all_proposals_count(&self) -> (r: u64)
        ensures
            r == self@.all_proposals_count,
    {
        self.all_proposals_count
    }

    /// How many confirmations have been recorded.
    pub fn all_confirmed_proposals_count(&self) -> (r: u64)
        ensures
            r == self@.all_confirmed_proposals_count,
    {
        self.all_confirmed_proposals_count
    }

    /// The off-chain worker's round counter.
    pub fn nonce(&self) -> (r: u64)
        ensures
            r == self@.nonce,
    {
        self.nonce
    }

    /// The report filed under `hash`, or an empty report where there is none.
    pub fn proposals(&self, hash: &ProposalHash) -> (r: Weather)
        requires
            self.wf(),
        ensures
            self@.proposals.contains_key(*hash) ==> r@ == self@.proposals[*hash],
            !self@.proposals.contains_key(*hash) ==> r@ == Weather::default_view(),
    {
        match self.proposals.get(hash) {
            Some(w) => w.clone(),
            None => Weather::default(),
        }
    }

    /// Who filed the proposal `hash` (account 0 where nobody did).
    pub fn proposal_owner(&self, hash: &ProposalHash) -> (r: AccountId)
        requires
            self.wf(),
        ensures
            r == (if self@.proposal_owner.contains_key(*hash) {
                self@.proposal_owner[*hash]
            } else {
                0
            }),
    {
        match self.proposal_owner.get(hash) {
            Some(a) => *a,
            None => 0,
        }
    }

    /// The proposal at position `index` of the list of all proposals (all zeros
    /// past its end).
    pub fn all_proposals_array(&self, index: u64) -> (r: ProposalHash)
        requires
            self.wf(),
        ensures
            self@.all_proposals_array.contains_key(index) ==> r == self@.all_proposals_array[index],
            !self@.all_proposals_array.contains_key(index) ==> is_zero_hash(r),
    {
        match self.all_proposals_array.get(&index) {
            Some(h) => *h,
            None => [0u8; 32],
        }
    }

    /// The position of the proposal `hash` in the list of all proposals (0 where
    /// it is not there).
    pub fn all_proposals_index(&self, hash: &ProposalHash) -> (r: u64)
        requires
            self.wf(),
        ensures
            r == (if self@.all_proposals_index.contains_key(*hash) {
                self@.all_proposals_index[*hash]
            } else {
                0
            }),
    {
        match self.all_proposals_index.get(hash) {
            Some(i) => *i,
            None => 0,
        }
    }

    /// The `index`-th proposal that `who` filed (all zeros where there is none).
    pub fn owned_proposals_array(&self, who: AccountId, index: u64) -> (r: ProposalHash)
        requires
            self.wf(),
        ensures
            self@.owned_proposals_array.contains_key((who, index)) ==> r == self@.owned_proposals_array[(who, index)],
            !self@.owned_proposals_array.contains_key((who, index)) ==> is_zero_hash(r),
    {
        match self.owned_proposals_array.get(&(who, index)) {
            Some(h) => *h,
            None => [0u8; 32],
        }
    }

    /// The owner of the proposal `hash` and its position in the owner's list.
    pub fn owned_proposals_index(&self, hash: &ProposalHash) -> (r: (AccountId, u64))
        requires
            self.wf(),
        ensures
            r == (if self@.owned_proposals_index.contains_key(*hash) {
                self@.owned_proposals_index[*hash]
            } else {
                (0u64, 0u64)
            }),
    {
        match self.owned_proposals_index.get(hash) {
            Some(k) => *k,
            None => (0, 0),
        }
    }

    /// How many proposals `who` has filed.
    pub fn owned_proposals_count(&self, who: AccountId) -> (r: u64)
        requires
            self.wf(),
        ensures
            r == self@.owned_count(who),
    {
        match self.owned_proposals_count.get(&who) {
            Some(n) => *n,
            None => 0,
        }
    }

    /// The votes cast for the proposal `hash`, in order.
    pub fn proposal_confirmation(&self, hash: &ProposalHash) -> (r: Vec<AccountId>)
        requires
            self.wf(),
        ensures
            r@ == self@.confirmations(*hash),
    {
        match self.proposal_confirmation.get(hash) {
            Some(votes) => votes.clone(),
            None => Vec::new(),
        }
    }

    /// The confirmed proposal at position `index` (all zeros past the end).
    pub fn all_confirmed_proposals_array(&self, index: u64) -> (r: ProposalHash)
        requires
            self.wf(),
        ensures
            self@.all_confirmed_proposals_array.contains_key(index) ==> r == self@.all_confirmed_proposals_array[index],
            !self@.all_confirmed_proposals_array.contains_key(index) ==> is_zero_hash(r),
    {
        match self.all_confirmed_proposals_array.get(&index) {
            Some(h) => *h,
            None => [0u8; 32],
        }
    }

    /// The last position at which `hash` was confirmed (0 where it never was).
    pub fn all_confirmed_proposals_index(&self, hash: &ProposalHash) -> (r: u64)
        requires
            self.wf(),
        ensures
            r == (if self@.all_confirmed_proposals_index.contains_key(*hash) {
                self@.all_confirmed_proposals_index[*hash]
            } else {
                0
            }),
    {
        match self.all_confirmed_proposals_index.get(hash) {
            Some(i) => *i,
            None => 0,
        }
    }

    /// The votes cast to remove the proposal authority `who`, in order.
    pub fn proposal_authority_reputation(&self, who: AccountId) -> (r: Vec<AccountId>)
        requires
            self.wf(),
        ensures
            r@ == self@.proposal_reputation(who),
    {
        match self.proposal_authority_reputation.get(&who) {
            Some(votes) => votes.clone(),
            None => Vec::new(),
        }
    }

    /// The votes cast to remove the vote authority `who`, in order.
    pub fn vote_authority_reputation(&self, who: AccountId) -> (r: Vec<AccountId>)
        requires
            self.wf(),
        ensures
            r@ == self@.vote_reputation(who),
    {
        match self.vote_authority_reputation.get(&who) {
            Some(votes) => votes.clone(),
            None => Vec::new(),
        }
    }

    /// One round of the off-chain worker, once the weather has been fetched and a
    /// random seed drawn: on a failed fetch nothing happens; otherwise the nonce
    /// goes up by one and the weather is to be proposed under the identifier made
    /// from the seed and the new nonce.
    pub fn offchain_worker(&mut self, fetched: Result<Weather, HttpError>, seed: &[u8; 32]) -> (action:
        Option<(Weather, ProposalHash)>)
        requires
            old(self).wf(),
            fetched is Ok ==> old(self)@.nonce < u64::MAX,
        ensures
            final(self).wf(),
            match fetched {
                Ok(weather) => {
                    &&& final(self)@ == (ModuleView { nonce: (old(self)@.nonce + 1) as u64, ..old(self)@ })
                    &&& action matches Some(proposal) && proposal.0 == weather && proposal.1@
                        == proposal_hash_of(seed@, final(self)@.nonce)
                },
                Err(_) => final(self)@ == old(self)@ && action is None,
            },
    {
        let weather = match fetched {
            Ok(weather) => weather,
            Err(_) => return None,
        };
        let ghost before = self@;
        self.nonce = self.nonce + 1;
        proof {
            before.lemma_same_votes(self@);
        }
        let hash = proposal_hash(seed, self.nonce);
        Some((weather, hash))
    }

    /// Sets how many votes confirm a proposal or remove an authority. Root only.
    pub fn set_vote_threshold(&mut self, origin: Origin, threshold: u64) -> (r: Result<
        Event,
        DispatchError,
    >)
        requires
            old(self).wf(),
        ensures
            final(self).wf(),
            origin == Origin::Root ==> r == Ok::<Event, DispatchError>(
                Event::VoteThresholdSet(threshold),
            ) && final(self)@ == (ModuleView { vote_threshold: threshold, ..old(self)@ }),
            origin != Origin::Root ==> r == Err::<Event, DispatchError>(DispatchError::BadOrigin)
                && final(self)@ == old(self)@,
    {
        match ensure_root(origin) {
            Err(e) => return Err(e),
            Ok(()) => {},
        }
        let ghost before = self@;
        self.vote_threshold = threshold;
        proof {
            before.lemma_same_votes(self@);
        }
        Ok(Event::VoteThresholdSet(threshold))
    }
}

impl ModuleView {
    /// What every call keeps: no account is twice an authority, nobody votes twice
    /// on one matter, and the proposal lists agree with their indexes.
    pub open spec fn consistent(self) -> bool {
        &&& no_duplicates(self.proposal_authorities)
        &&& no_duplicates(self.vote_authorities)
        &&& self.votes_distinct()
        &&& self.proposals_indexed()
        &&& self.confirmed_indexed()
    }

    /// Nobody has voted twice for one proposal or against one authority.
    pub open spec fn votes_distinct(self) -> bool {
        &&& forall|h: ProposalHash| #[trigger] no_duplicates(self.confirmations(h))
        &&& forall|a: AccountId| #[trigger] no_duplicates(self.proposal_reputation(a))
        &&& forall|a: AccountId| #[trigger] no_duplicates(self.vote_reputation(a))
    }

    /// The list of all proposals holds the positions below its count, each
    /// proposal's index points at it, and the per-owner lists agree likewise.
    pub open spec fn proposals_indexed(self) -> bool {
        &&& forall|i: u64| #[trigger]
            self.all_proposals_array.contains_key(i) <==> i < self.all_proposals_count
        &&& forall|h: ProposalHash| #[trigger]
            self.all_proposals_index.contains_key(h) ==> {
                &&& self.all_proposals_index[h] < self.all_proposals_count
                &&& self.all_proposals_array[self.all_proposals_index[h]] == h
            }
        &&& forall|i: u64|
            i < self.all_proposals_count ==> self.all_proposals_index.contains_key(
                #[trigger] self.all_proposals_array[i],
            )
        &&& forall|h: ProposalHash| #[trigger]
            self.proposals.contains_key(h) <==> self.all_proposals_index.contains_key(h)
        &&& forall|h: ProposalHash| #[trigger]
            self.proposal_owner.contains_key(h) <==> self.all_proposals_index.contains_key(h)
        &&& forall|h: ProposalHash| #[trigger]
            self.owned_proposals_index.contains_key(h) <==> self.all_proposals_index.contains_key(
                h,
            )
        &&& forall|a: AccountId, i: u64| #[trigger]
            self.owned_proposals_array.contains_key((a, i)) <==> i < self.owned_count(a)
        &&& forall|h: ProposalHash| #[trigger]
            self.owned_proposals_index.contains_key(h) ==> {
                &&& self.owned_proposals_array.contains_key(self.owned_proposals_index[h])
                &&& self.owned_proposals_array[self.owned_proposals_index[h]] == h
                &&& self.owned_proposals_index[h].0 == self.proposal_owner[h]
            }
    }

    /// The list of confirmed proposals holds the positions below its count, and
    /// each confirmed proposal's index points at a position where it stands (the
    /// latest, where it was confirmed more than once).
    pub open spec fn confirmed_indexed(self) -> bool {
        &&& forall|i: u64| #[trigger]
            self.all_confirmed_proposals_array.contains_key(i) <==> i
                < self.all_confirmed_proposals_count
        &&& forall|h: ProposalHash| #[trigger]
            self.all_confirmed_proposals_index.contains_key(h) ==> {
                &&& self.all_confirmed_proposals_index[h] < self.all_confirmed_proposals_count
                &&& self.all_confirmed_proposals_array[self.all_confirmed_proposals_index[h]] == h
            }
        &&& forall|i: u64|
            i < self.all_confirmed_proposals_count
                ==> self.all_confirmed_proposals_index.contains_key(
                #[trigger] self.all_confirmed_proposals_array[i],
            )
    }

    /// The storage after `sender` files `weather` under `hash`: it joins the list
    /// of all proposals and the sender's own list, each at the next position.
    pub open spec fn with_proposal(
        self,
        sender: AccountId,
        weather: WeatherView,
        hash: ProposalHash,
    ) -> ModuleView {
        let c = self.all_proposals_count;
        let oc = self.owned_count(sender);
        ModuleView {
            proposals: self.proposals.insert(hash, weather),
            proposal_owner: self.proposal_owner.insert(hash, sender),
            all_proposals_array: self.all_proposals_array.insert(c, hash),
            all_proposals_index: self.all_proposals_index.insert(hash, c),
            all_proposals_count: (c + 1) as u64,
            owned_proposals_array: self.owned_proposals_array.insert((sender, oc), hash),
            owned_proposals_index: self.owned_proposals_index.insert(hash, (sender, oc)),
            owned_proposals_count: self.owned_proposals_count.insert(sender, (oc + 1) as u64),
            ..self
        }
    }

    /// What `submit_weather_proposal` answers, and the storage after it.
    pub open spec fn proposal_step(self, origin: Origin, weather: Weather, hash: ProposalHash) -> (
        ModuleView,
        Result<Event, DispatchError>,
    ) {
        match origin {
            Origin::Signed(sender) => if !self.is_proposal_authority(sender) {
                (
                    self,
                    Err(
                        DispatchError::Other(
                            "submit_weather_proposal: sender is not a proposal authority.",
                        ),
                    ),
                )
            } else {
                (
                    self.with_proposal(sender, weather@, hash),
                    Ok(Event::WeatherProposalSubmitted(sender, hash, weather)),
                )
            },
            _ => (self, Err(DispatchError::BadOrigin)),
        }
    }

    /// The storage after `hash` joins the list of confirmed proposals.
    pub open spec fn with_confirmed(self, hash: ProposalHash) -> ModuleView {
        let c = self.all_confirmed_proposals_count;
        ModuleView {
            all_confirmed_proposals_array: self.all_confirmed_proposals_array.insert(c, hash),
            all_confirmed_proposals_index: self.all_confirmed_proposals_index.insert(hash, c),
            all_confirmed_proposals_count: (c + 1) as u64,
            ..self
        }
    }

    /// A new vote for `hash` confirms it: with this vote its count equals the
    /// threshold, or passes a threshold that was lowered under it while the
    /// proposal was not yet confirmed. A count that meets a raised threshold
    /// confirms a proposal again, which then stands twice in the list.
    pub open spec fn vote_confirms(self, hash: ProposalHash) -> bool {
        let count = self.confirmations(hash).len() + 1;
        ||| count == self.vote_threshold
        ||| (count > self.vote_threshold && !self.all_confirmed_proposals_index.contains_key(hash))
    }

    /// The storage after `sender` votes for `hash`: the vote is recorded, and the
    /// proposal joins the confirmed list where the vote confirms it.
    pub open spec fn with_vote(self, sender: AccountId, hash: ProposalHash) -> ModuleView {
        let votes = self.confirmations(hash).push(sender);
        let voted = ModuleView {
            proposal_confirmation: self.proposal_confirmation.insert(hash, votes),
            ..self
        };
        if self.vote_confirms(hash) {
            voted.with_confirmed(hash)
        } else {
            voted
        }
    }

    /// What `submit_weather_vote` answers, and the storage after it.
    pub open spec fn vote_step(self, origin: Origin, hash: ProposalHash) -> (
        ModuleView,
        Result<Event, DispatchError>,
    ) {
        match origin {
            Origin::Signed(sender) => if !self.is_vote_authority(sender) {
                (
                    self,
                    Err(DispatchError::Other("submit_weather_vote: sender is not a vote authority.")),
                )
            } else if self.confirmations(hash).contains(sender) {
                (self, Err(DispatchError::Other("submit_weather_vote: sender has voted.")))
            } else {
                (self.with_vote(sender, hash), Ok(Event::WeatherVoteSubmitted(sender, hash)))
            },
            _ => (self, Err(DispatchError::BadOrigin)),
        }
    }

    /// The storage after `sender` votes to remove the proposal authority `who`:
    /// when the votes reach or pass the threshold, `who` is removed and its votes
    /// cleared.
    pub open spec fn with_proposal_reputation_vote(
        self,
        sender: AccountId,
        who: AccountId,
    ) -> ModuleView {
        let votes = self.proposal_reputation(who).push(sender);
        if votes.len() >= self.vote_threshold {
            ModuleView {
                proposal_authorities: without_account(self.proposal_authorities, who),
                proposal_authority_reputation: self.proposal_authority_reputation.remove(who),
                ..self
            }
        } else {
            ModuleView {
                proposal_authority_reputation: self.proposal_authority_reputation.insert(
                    who,
                    votes,
                ),
                ..self
            }
        }
    }

    /// What `submit_proposal_authority_reputation` answers, and the storage after it.
    pub open spec fn proposal_reputation_step(self, origin: Origin, who: AccountId) -> (
        ModuleView,
        Result<Event, DispatchError>,
    ) {
        match origin {
            Origin::Signed(sender) => if !self.is_vote_authority(sender) {
                (
                    self,
                    Err(
                        DispatchError::Other(
                            "submit_proposal_authority_reputation: sender is not a vote authority.",
                        ),
                    ),
                )
            } else if !self.is_proposal_authority(who) {
                (
                    self,
                    Err(
                        DispatchError::Other(
                            "submit_proposal_authority_reputation: proposer is not a proposal authority.",
                        ),
                    ),
                )
            } else if self.proposal_reputation(who).contains(sender) {
                (
                    self,
                    Err(
                        DispatchError::Other(
                            "submit_proposal_authority_reputation: sender has voted.",
                        ),
                    ),
                )
            } else {
                (
                    self.with_proposal_reputation_vote(sender, who),
                    Ok(Event::ProposalAuthorityReputationVoteSubmitted(sender, who)),
                )
            },
            _ => (self, Err(DispatchError::BadOrigin)),
        }
    }

    /// The storage after `sender` votes to remove the vote authority `who`:
    /// when the votes reach or pass the threshold, `who` is removed and its votes
    /// cleared.
    pub open spec fn with_vote_reputation_vote(self, sender: AccountId, who: AccountId) -> ModuleView {
        let votes = self.vote_reputation(who).push(sender);
        if votes.len() >= self.vote_threshold {
            ModuleView {
                vote_authorities: without_account(self.vote_authorities, who),
                vote_authority_reputation: self.vote_authority_reputation.remove(who),
                ..self
            }
        } else {
            ModuleView {
                vote_authority_reputation: self.vote_authority_reputation.insert(who, votes),
                ..self
            }
        }
    }

    /// What `submit_vote_authority_reputation` answers, and the storage after it.
    pub open spec fn vote_reputation_step(self, origin: Origin, who: AccountId) -> (
        ModuleView,
        Result<Event, DispatchError>,
    ) {
        match origin {
            Origin::Signed(sender) => if !self.is_vote_authority(sender) {
                (
                    self,
                    Err(
                        DispatchError::Other(
                            "submit_vote_authority_reputation: sender is not a vote authority.",
                        ),
                    ),
                )
            } else if !self.is_vote_authority(who) {
                (
                    self,
                    Err(
                        DispatchError::Other(
                            "submit_vote_authority_reputation: user is not a vote authority.",
                        ),
                    ),
                )
            } else if self.vote_reputation(who).contains(sender) {
                (
                    self,
                    Err(DispatchError::Other("submit_vote_authority_reputation: sender has voted.")),
                )
            } else {
                (
                    self.with_vote_reputation_vote(sender, who),
                    Ok(Event::VoteAuthorityReputationVoteSubmitted(sender, who)),
                )
            },
            _ => (self, Err(DispatchError::BadOrigin)),
        }
    }

    /// Filing a proposal keeps the storage consistent.
    pub proof fn lemma_with_proposal(
        self,
        sender: AccountId,
        weather: WeatherView,
        hash: ProposalHash,
    )
        requires
            self.consistent(),
            self.all_proposals_count < u64::MAX,
            self.owned_count(sender) < u64::MAX,
        ensures
            self.with_proposal(sender, weather, hash).consistent(),
    {
        let n = self.with_proposal(sender, weather, hash);
        let c = self.all_proposals_count;
        let oc = self.owned_count(sender);
        assert forall|h: ProposalHash| #[trigger] no_duplicates(n.confirmations(h)) by {
            assert(n.confirmations(h) == self.confirmations(h));
        }
        assert forall|a: AccountId| #[trigger] no_duplicates(n.proposal_reputation(a)) by {
            assert(n.proposal_reputation(a) == self.proposal_reputation(a));
        }
        assert forall|a: AccountId| #[trigger] no_duplicates(n.vote_reputation(a)) by {
            assert(n.vote_reputation(a) == self.vote_reputation(a));
        }
        assert forall|i: u64| #[trigger]
            n.all_proposals_array.contains_key(i) <==> i < n.all_proposals_count by {
            if i != c {
                assert(n.all_proposals_array.contains_key(i) == self.all_proposals_array.contains_key(
                    i,
                ));
            }
        }
        assert forall|h: ProposalHash| #[trigger] n.all_proposals_index.contains_key(h) implies {
            &&& n.all_proposals_index[h] < n.all_proposals_count
            &&& n.all_proposals_array[n.all_proposals_index[h]] == h
        } by {
            if h != hash {
                assert(self.all_proposals_index.contains_key(h));
                assert(self.all_proposals_index[h] < c);
            }
        }
        assert forall|i: u64| i < n.all_proposals_count implies n.all_proposals_index.contains_key(
            #[trigger] n.all_proposals_array[i],
        ) by {
            if i != c {
                assert(self.all_proposals_index.contains_key(self.all_proposals_array[i]));
            }
        }
        assert forall|a: AccountId, i: u64| #[trigger]
            n.owned_proposals_array.contains_key((a, i)) <==> i < n.owned_count(a) by {
            if (a, i) != (sender, oc) {
                assert(n.owned_proposals_array.contains_key((a, i))
                    == self.owned_proposals_array.contains_key((a, i)));
            }
        }
        assert forall|h: ProposalHash| #[trigger] n.owned_proposals_index.contains_key(h) implies {
            &&& n.owned_proposals_array.contains_key(n.owned_proposals_index[h])
            &&& n.owned_proposals_array[n.owned_proposals_index[h]] == h
            &&& n.owned_proposals_index[h].0 == n.proposal_owner[h]
        } by {
            if h != hash {
                let k = self.owned_proposals_index[h];
                assert(self.owned_proposals_array.contains_key(k));
                assert(self.owned_proposals_array.contains_key((k.0, k.1)));
                assert(k.1 < self.owned_count(k.0));
                assert(k != (sender, oc));
            }
        }
        assert(n.proposals_indexed());
    }

    /// Recording a confirmation keeps the confirmed list consistent.
    pub proof fn lemma_with_confirmed(self, hash: ProposalHash)
        requires
            self.confirmed_indexed(),
            self.all_confirmed_proposals_count < u64::MAX,
        ensures
            self.with_confirmed(hash).confirmed_indexed(),
    {
        let n = self.with_confirmed(hash);
        let c = self.all_confirmed_proposals_count;
        assert forall|i: u64| #[trigger]
            n.all_confirmed_proposals_array.contains_key(i) <==> i
                < n.all_confirmed_proposals_count by {
            if i != c {
                assert(n.all_confirmed_proposals_array.contains_key(i)
                    == self.all_confirmed_proposals_array.contains_key(i));
            }
        }
        assert forall|h: ProposalHash| #[trigger]
            n.all_confirmed_proposals_index.contains_key(h) implies {
            &&& n.all_confirmed_proposals_index[h] < n.all_confirmed_proposals_count
            &&& n.all_confirmed_proposals_array[n.all_confirmed_proposals_index[h]] == h
        } by {
            if h != hash {
                assert(self.all_confirmed_proposals_index.contains_key(h));
                assert(self.all_confirmed_proposals_index[h] < c);
            }
        }
        assert forall|i: u64|
            i < n.all_confirmed_proposals_count implies n.all_confirmed_proposals_index.contains_key(
            #[trigger] n.all_confirmed_proposals_array[i],
        ) by {
            if i != c {
                assert(self.all_confirmed_proposals_index.contains_key(
                    self.all_confirmed_proposals_array[i],
                ));
            }
        }
    }

    /// A new vote for a proposal keeps the storage consistent.
    pub proof fn lemma_with_vote(self, sender: AccountId, hash: ProposalHash)
        requires
            self.consistent(),
            !self.confirmations(hash).contains(sender),
            self.vote_confirms(hash) ==> self.all_confirmed_proposals_count < u64::MAX,
        ensures
            self.with_vote(sender, hash).consistent(),
    {
        let votes = self.confirmations(hash).push(sender);
        let voted = ModuleView {
            proposal_confirmation: self.proposal_confirmation.insert(hash, votes),
            ..self
        };
        lemma_push_no_duplicates(self.confirmations(hash), sender);
        assert forall|h: ProposalHash| #[trigger] no_duplicates(voted.confirmations(h)) by {
            if h != hash {
                assert(voted.confirmations(h) == self.confirmations(h));
            }
        }
        assert forall|a: AccountId| #[trigger] no_duplicates(voted.proposal_reputation(a)) by {
            assert(voted.proposal_reputation(a) == self.proposal_reputation(a));
        }
        assert forall|a: AccountId| #[trigger] no_duplicates(voted.vote_reputation(a)) by {
            assert(voted.vote_reputation(a) == self.vote_reputation(a));
        }
        assert(voted.owned_count(sender) == self.owned_count(sender));
        assert(voted.proposals_indexed()) by {
            assert forall|a: AccountId| voted.owned_count(a) == self.owned_count(a) by {}
        }
        assert(voted.consistent());
        if self.vote_confirms(hash) {
            voted.lemma_with_confirmed(hash);
            let n = voted.with_confirmed(hash);
            assert forall|h: ProposalHash| #[trigger] no_duplicates(n.confirmations(h)) by {
                assert(n.confirmations(h) == voted.confirmations(h));
            }
            assert forall|a: AccountId| #[trigger] no_duplicates(n.proposal_reputation(a)) by {
                assert(n.proposal_reputation(a) == voted.proposal_reputation(a));
            }
            assert forall|a: AccountId| #[trigger] no_duplicates(n.vote_reputation(a)) by {
                assert(n.vote_reputation(a) == voted.vote_reputation(a));
            }
            assert forall|a: AccountId| n.owned_count(a) == voted.owned_count(a) by {}
            assert(n.proposals_indexed());
        }
    }

    /// A new vote against a proposal authority keeps the storage consistent.
    pub proof fn lemma_with_proposal_reputation_vote(self, sender: AccountId, who: AccountId)
        requires
            self.consistent(),
            self.is_proposal_authority(who),
            !self.proposal_reputation(who).contains(sender),
        ensures
            self.with_proposal_reputation_vote(sender, who).consistent(),
    {
        let n = self.with_proposal_reputation_vote(sender, who);
        let votes = self.proposal_reputation(who).push(sender);
        lemma_push_no_duplicates(self.proposal_reputation(who), sender);
        if votes.len() >= self.vote_threshold {
            lemma_without_no_duplicates(self.proposal_authorities, who);
        }
        assert forall|h: ProposalHash| #[trigger] no_duplicates(n.confirmations(h)) by {
            assert(n.confirmations(h) == self.confirmations(h));
        }
        assert forall|a: AccountId| #[trigger] no_duplicates(n.proposal_reputation(a)) by {
            if a != who {
                assert(n.proposal_reputation(a) == self.proposal_reputation(a));
            } else if votes.len() >= self.vote_threshold {
                assert(n.proposal_reputation(a) =~= Seq::<AccountId>::empty());
            }
        }
        assert forall|a: AccountId| #[trigger] no_duplicates(n.vote_reputation(a)) by {
            assert(n.vote_reputation(a) == self.vote_reputation(a));
        }
        assert forall|a: AccountId| n.owned_count(a) == self.owned_count(a) by {}
        assert(n.proposals_indexed());
    }

    /// A new vote against a vote authority keeps the storage consistent.
    pub proof fn lemma_with_vote_reputation_vote(self, sender: AccountId, who: AccountId)
        requires
            self.consistent(),
            self.is_vote_authority(who),
            !self.vote_reputation(who).contains(sender),
        ensures
            self.with_vote_reputation_vote(sender, who).consistent(),
    {
        let n = self.with_vote_reputation_vote(sender, who);
        let votes = self.vote_reputation(who).push(sender);
        lemma_push_no_duplicates(self.vote_reputation(who), sender);
        if votes.len() >= self.vote_threshold {
            lemma_without_no_duplicates(self.vote_authorities, who);
        }
        assert forall|h: ProposalHash| #[trigger] no_duplicates(n.confirmations(h)) by {
            assert(n.confirmations(h) == self.confirmations(h));
        }
        assert forall|a: AccountId| #[trigger] no_duplicates(n.vote_reputation(a)) by {
            if a != who {
                assert(n.vote_reputation(a) == self.vote_reputation(a));
            } else if votes.len() >= self.vote_threshold {
                assert(n.vote_reputation(a) =~= Seq::<AccountId>::empty());
            }
        }
        assert forall|a: AccountId| #[trigger] no_duplicates(n.proposal_reputation(a)) by {
            assert(n.proposal_reputation(a) == self.proposal_reputation(a));
        }
        assert forall|a: AccountId| n.owned_count(a) == self.owned_count(a) by {}
        assert(n.proposals_indexed());
    }

    /// Storage that differs from a consistent one only in its authority lists,
    /// threshold or nonce, and whose authority lists hold no duplicates, is
    /// consistent.
    pub proof fn lemma_same_votes(self, next: ModuleView)
        requires
            self.consistent(),
            next == (ModuleView {
                proposal_authorities: next.proposal_authorities,
                vote_authorities: next.vote_authorities,
                vote_threshold: next.vote_threshold,
                nonce: next.nonce,
                ..self
            }),
            next.proposal_confirmation == self.proposal_confirmation,
            next.proposal_authority_reputation == self.proposal_authority_reputation,
            next.vote_authority_reputation == self.vote_authority_reputation,
            no_duplicates(next.proposal_authorities),
            no_duplicates(next.vote_authorities),
        ensures
            next.consistent(),
    {
        assert forall|h: ProposalHash| #[trigger] no_duplicates(next.confirmations(h)) by {
            assert(next.confirmations(h) == self.confirmations(h));
        }
        assert forall|a: AccountId| #[trigger] no_duplicates(next.proposal_reputation(a)) by {
            assert(next.proposal_reputation(a) == self.proposal_reputation(a));
        }
        assert forall|a: AccountId| #[trigger] no_duplicates(next.vote_reputation(a)) by {
            assert(next.vote_reputation(a) == self.vote_reputation(a));
        }
    }
}

} // verus!

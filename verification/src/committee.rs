//! The validators of one epoch: who they are, what stake each holds, and
//! what stake makes a quorum.
use crate::authority::AuthorityPublicKey;
use crate::base_types::AuthorityName;
use crate::error::{SuiError, SuiResult};
use vstd::prelude::*;

verus! {

/// Identifier of a committee configuration. Epochs only grow; what was
/// certified in one epoch counts in that epoch alone.
pub type EpochId = u64;

/// Voting power.
pub type StakeUnit = u64;

/// A member of a committee as plain values: the name's bytes and the stake.
pub type Member = (Seq<u8>, StakeUnit);

/// The plain values of a list of members.
pub open spec fn members_view(list: Seq<(AuthorityName, StakeUnit)>) -> Seq<Member> {
    Seq::new(list.len(), |i: int| (list[i].0@, list[i].1))
}

/// The stake of all members together.
pub open spec fn total_stake(members: Seq<Member>) -> nat
    decreases members.len(),
{
    if members.len() == 0 {
        0
    } else {
        total_stake(members.drop_last()) + members.last().1 as nat
    }
}

/// No name occurs twice.
pub open spec fn distinct_names(members: Seq<Member>) -> bool {
    forall|i: int, j: int| 0 <= i < j < members.len() ==> members[i].0 != members[j].0
}

/// What a list of members must satisfy to form a committee: names are
/// distinct, positions fit in 32 bits and the total stake fits in 64 bits.
pub open spec fn valid_members(members: Seq<Member>) -> bool {
    &&& distinct_names(members)
    &&& members.len() <= u32::MAX
    &&& total_stake(members) <= u64::MAX
}

/// The position of the member called `name`, if there is one.
pub open spec fn index_of(members: Seq<Member>, name: Seq<u8>) -> Option<int> {
    if exists|i: int| 0 <= i < members.len() && members[i].0 == name {
        Some(choose|i: int| 0 <= i < members.len() && members[i].0 == name)
    } else {
        None
    }
}

/// The stake of the member called `name`; zero if there is none.
pub open spec fn weight_of(members: Seq<Member>, name: Seq<u8>) -> StakeUnit {
    match index_of(members, name) {
        Some(i) => members[i].1,
        None => 0,
    }
}

/// The stake that a supermajority needs: more than two thirds of the total.
pub open spec fn quorum_threshold_of(total: nat) -> nat {
    2 * total / 3 + 1
}

/// The stake that minimum validity needs: at least one third of the total,
/// rounded up.
pub open spec fn validity_threshold_of(total: nat) -> nat {
    (total + 2) / 3
}

/// The supermajority threshold is the least stake that is more than two
/// thirds of the total; the minimum-validity threshold is the least stake
/// that is at least one third of it. Neither threshold exceeds the other
/// way round: validity never asks for more than a supermajority.
pub proof fn lemma_thresholds(total: nat)
    ensures
        3 * quorum_threshold_of(total) > 2 * total,
        3 * (quorum_threshold_of(total) - 1) <= 2 * total,
        3 * validity_threshold_of(total) >= total,
        total > 0 ==> 3 * (validity_threshold_of(total) - 1) < total,
        validity_threshold_of(total) <= quorum_threshold_of(total),
{
}

/// The stake of a prefix is at most the stake of the whole list.
pub proof fn lemma_total_stake_prefix(members: Seq<Member>, n: int)
    requires
        0 <= n <= members.len(),
    ensures
        total_stake(members.subrange(0, n)) <= total_stake(members),
    decreases members.len(),
{
    if n == members.len() {
        assert(members.subrange(0, n) =~= members);
    } else {
        assert(members.drop_last().subrange(0, n) =~= members.subrange(0, n));
        lemma_total_stake_prefix(members.drop_last(), n);
    }
}

/// With distinct names, a member is found at its own position.
pub proof fn lemma_index_of_member(members: Seq<Member>, i: int)
    requires
        distinct_names(members),
        0 <= i < members.len(),
    ensures
        index_of(members, members[i].0) == Some(i),
        weight_of(members, members[i].0) == members[i].1,
{
    let found = choose|k: int| 0 <= k < members.len() && members[k].0 == members[i].0;
    if found < i {
        assert(members[found].0 != members[i].0);
    } else if i < found {
        assert(members[i].0 != members[found].0);
    }
}

/// A committee: the validators of one epoch with their stake.
///
/// Validators are numbered by their position in the list that the committee
/// was made from.
pub struct Committee {
    epoch: EpochId,
    voting_rights: Vec<(AuthorityName, StakeUnit)>,
    total_votes: StakeUnit,
}

impl Committee {
    /// The epoch that the committee serves.
    pub closed spec fn epoch_spec(&self) -> EpochId {
        self.epoch
    }

    /// The members, in the order of their numbering.
    pub closed spec fn members(&self) -> Seq<Member> {
        members_view(self.voting_rights@)
    }

    /// The total stake as recorded for the thresholds.
    pub closed spec fn total_spec(&self) -> StakeUnit {
        self.total_votes
    }

    /// Every committee has distinct names and a recorded total that is the
    /// sum of its members' stake.
    #[verifier::type_invariant]
    pub open spec fn wf(&self) -> bool {
        &&& valid_members(self.members())
        &&& self.total_spec() == total_stake(self.members())
    }

    /// Makes a committee of `voting_rights` for `epoch`, or `None` if a name
    /// occurs twice, there are more members than 32-bit positions, or the
    /// total stake exceeds 64 bits.
    pub fn new(epoch: EpochId, voting_rights: Vec<(AuthorityName, StakeUnit)>) -> (result: Option<
        Committee,
    >)
        ensures
            result is Some <==> valid_members(members_view(voting_rights@)),
            result is Some ==> {
                &&& result.unwrap().wf()
                &&& result.unwrap().epoch_spec() == epoch
                &&& result.unwrap().members() == members_view(voting_rights@)
            },
    {
        let n = voting_rights.len();
        let ghost members = members_view(voting_rights@);
        if n > u32::MAX as usize {
            return None;
        }
        let mut i: usize = 0;
        while i < n
            invariant
                i <= n,
                n == voting_rights.len(),
                members == members_view(voting_rights@),
                forall|a: int, b: int| 0 <= a < b < i ==> members[a].0 != members[b].0,
            decreases n - i,
        {
            let mut j: usize = 0;
            while j < i
                invariant
                    j <= i,
                    i < n,
                    n == voting_rights.len(),
                    members == members_view(voting_rights@),
                    forall|a: int| 0 <= a < j ==> members[a].0 != members[i as int].0,
                decreases i - j,
            {
                if voting_rights[j].0.same_as(&voting_rights[i].0) {
                    assert(members[j as int].0 == members[i as int].0);
                    return None;
                }
                j += 1;
            }
            i += 1;
        }
        assert(distinct_names(members));
        let mut total: StakeUnit = 0;
        let mut k: usize = 0;
        while k < n
            invariant
                k <= n,
                n == voting_rights.len(),
                members == members_view(voting_rights@),
                total == total_stake(members.subrange(0, k as int)),
            decreases n - k,
        {
            let weight = voting_rights[k].1;
            proof {
                assert(members.subrange(0, k + 1).drop_last() =~= members.subrange(0, k as int));
                assert(members.subrange(0, k + 1).last() == members[k as int]);
                lemma_total_stake_prefix(members, k + 1);
            }
            if weight > u64::MAX - total {
                return None;
            }
            total = total + weight;
            k += 1;
        }
        assert(members.subrange(0, n as int) =~= members);
        Some(Committee { epoch, voting_rights, total_votes: total })
    }

    /// The epoch that the committee serves.
    pub fn epoch(&self) -> (epoch: EpochId)
        ensures
            epoch == self.epoch_spec(),
            self.wf(),
    {
        proof {
            use_type_invariant(self);
        }
        self.epoch
    }

    /// The number of members.
    pub fn len(&self) -> (n: usize)
        ensures
            n == self.members().len(),
            self.wf(),
    {
        proof {
            use_type_invariant(self);
        }
        self.voting_rights.len()
    }

    /// The stake of all members together.
    pub fn total_votes(&self) -> (total: StakeUnit)
        ensures
            total == total_stake(self.members()),
            self.wf(),
    {
        proof {
            use_type_invariant(self);
        }
        self.total_votes
    }

    /// The stake that a supermajority certificate must reach.
    pub fn quorum_threshold(&self) -> (threshold: StakeUnit)
        ensures
            threshold == quorum_threshold_of(total_stake(self.members())),
    {
        proof {
            use_type_invariant(self);
        }
        let twice: u128 = 2 * (self.total_votes as u128);
        let threshold: u128 = twice / 3 + 1;
        assert(threshold <= u64::MAX);
        threshold as u64
    }

    /// The stake that a minimum-validity certificate must reach.
    pub fn validity_threshold(&self) -> (threshold: StakeUnit)
        ensures
            threshold == validity_threshold_of(total_stake(self.members())),
    {
        proof {
            use_type_invariant(self);
        }
        let padded: u128 = self.total_votes as u128 + 2;
        (padded / 3) as u64
    }

    /// The position of the validator called `name`.
    pub fn authority_index(&self, name: &AuthorityName) -> (index: Option<u32>)
        ensures
            self.wf(),
            match index {
                Some(i) => index_of(self.members(), name@) == Some(i as int),
                None => index_of(self.members(), name@) is None,
            },
    {
        proof {
            use_type_invariant(self);
        }
        let ghost members = self.members();
        let n = self.voting_rights.len();
        let mut i: usize = 0;
        while i < n
            invariant
                i <= n,
                n == self.voting_rights.len(),
                n <= u32::MAX,
                self.wf(),
                members == members_view(self.voting_rights@),
                distinct_names(members),
                forall|a: int| 0 <= a < i ==> members[a].0 != name@,
            decreases n - i,
        {
            if self.voting_rights[i].0.same_as(name) {
                proof {
                    assert(members[i as int].0 == name@);
                    lemma_index_of_member(members, i as int);
                }
                return Some(i as u32);
            }
            i += 1;
        }
        None
    }

    /// The name of the validator at position `index`.
    pub fn authority_by_index(&self, index: u32) -> (name: Option<&AuthorityName>)
        ensures
            self.wf(),
            index < self.members().len() ==> name is Some && name.unwrap()@
                == self.members()[index as int].0,
            index >= self.members().len() ==> name is None,
    {
        proof {
            use_type_invariant(self);
        }
        if (index as usize) < self.voting_rights.len() {
            Some(&self.voting_rights[index as usize].0)
        } else {
            None
        }
    }

    /// The stake of the validator called `name`; zero if there is none.
    pub fn weight(&self, name: &AuthorityName) -> (weight: StakeUnit)
        ensures
            self.wf(),
            weight == weight_of(self.members(), name@),
    {
        match self.authority_index(name) {
            Some(i) => self.voting_rights[i as usize].1,
            None => 0,
        }
    }

    /// What [`Committee::public_key`] answers, seen through the key's bytes.
    pub open spec fn public_key_spec(&self, name: Seq<u8>) -> SuiResult<Seq<u8>> {
        if index_of(self.members(), name) is None {
            Err(SuiError::UnknownSigner)
        } else {
            AuthorityPublicKey::parse_spec(name)
        }
    }

    /// The decoded public key of the validator called `name`:
    /// `UnknownSigner` if the committee has no such member, `InvalidAddress`
    /// if the name encodes no key.
    pub fn public_key(&self, name: &AuthorityName) -> (result: SuiResult<AuthorityPublicKey>)
        ensures
            self.wf(),
            match self.public_key_spec(name@) {
                Ok(bytes) => result is Ok && result.unwrap()@ == bytes,
                Err(e) => result == Err::<AuthorityPublicKey, SuiError>(e),
            },
    {
        match self.authority_index(name) {
            None => Err(SuiError::UnknownSigner),
            Some(_) => AuthorityPublicKey::try_from_bytes(name),
        }
    }
}

} // verus!

//! Membership directory and the proposal/voting settlement engine.
//!
//! Every operation takes the authenticated caller, the current time and
//! the ledger's answers as explicit arguments.  Operations that the
//! original flow interleaves with ledger transfers are split in two: a
//! pure validation step the boundary layer calls before the escrow
//! transfer, and a commit step it calls only after the transfer went
//! through.

use vstd::pervasive::VecAdditionalExecFns;
use vstd::prelude::*;

use crate::error::DaoError;
use crate::proposal::clone_props;
use crate::proposal::props_view;
use crate::proposal::settlement_payouts;
use crate::proposal::build_settlement_payouts;
use crate::proposal::tally_votes;
use crate::proposal::no_total;
use crate::proposal::yes_total;
use crate::proposal::vote_amount;
use crate::proposal::Payout;
use crate::proposal::Proposal;
use crate::proposal::ProposalState;
use crate::proposal::ProposalStateView;
use crate::proposal::ProposalView;
use crate::proposal::PropertyMap;
use crate::proposal::Votes;
use crate::types::Principal;

verus! {

/// Stake escrowed for opening a proposal must be at least this much.
pub const MIN_PROPOSAL_STAKE: u64 = 1;

/// A voter's ledger balance must be at least this much to vote at all.
pub const MIN_VOTE_BALANCE: u64 = 100_000_000;

/// One social link of a member profile.
#[derive(Debug, PartialEq, Eq)]
pub struct Social {
    pub key: String,
    pub link: String,
}

impl Clone for Social {
    fn clone(&self) -> (r: Self)
        ensures
            r == *self,
    {
        Social { key: self.key.clone(), link: self.link.clone() }
    }
}

/// Copies a list of social links.
pub fn clone_socials(v: &Vec<Social>) -> (r: Vec<Social>)
    ensures
        r@ == v@,
{
    let mut r: Vec<Social> = Vec::new();
    let n = v.len();
    for i in 0..n
        invariant
            n == v@.len(),
            r@ == v@.take(i as int),
    {
        r.push(v[i].clone());
        proof {
            assert(v@.take(i + 1) =~= v@.take(i as int).push(v@[i as int]));
        }
    }
    proof {
        assert(v@.take(n as int) =~= v@);
    }
    r
}

/// Copies a list of strings.
pub fn clone_strings(v: &Vec<String>) -> (r: Vec<String>)
    ensures
        r@ == v@,
{
    let mut r: Vec<String> = Vec::new();
    let n = v.len();
    for i in 0..n
        invariant
            n == v@.len(),
            r@ == v@.take(i as int),
    {
        r.push(v[i].clone());
        proof {
            assert(v@.take(i + 1) =~= v@.take(i as int).push(v@[i as int]));
        }
    }
    proof {
        assert(v@.take(n as int) =~= v@);
    }
    r
}

/// One member record.  Status is `1` while joined and `-1` after quitting;
/// the record itself is never removed.
#[derive(Debug, PartialEq, Eq)]
pub struct MemberItems {
    pub principal: Principal,
    pub nickname: String,
    pub status_code: i8,
    pub avatar: String,
    pub intro: String,
    pub social: Vec<Social>,
    pub join_at: u64,
}

/// Ghost image of a [`MemberItems`].
pub ghost struct MemberItemsView {
    pub principal: Principal,
    pub nickname: Seq<char>,
    pub status_code: i8,
    pub avatar: Seq<char>,
    pub intro: Seq<char>,
    pub social: Seq<Social>,
    pub join_at: u64,
}

impl View for MemberItems {
    type V = MemberItemsView;

    open spec fn view(&self) -> MemberItemsView {
        MemberItemsView {
            principal: self.principal,
            nickname: self.nickname@,
            status_code: self.status_code,
            avatar: self.avatar@,
            intro: self.intro@,
            social: self.social@,
            join_at: self.join_at,
        }
    }
}

impl Clone for MemberItems {
    fn clone(&self) -> (r: Self)
        ensures
            r@ == self@,
    {
        MemberItems {
            principal: self.principal,
            nickname: self.nickname.clone(),
            status_code: self.status_code,
            avatar: self.avatar.clone(),
            intro: self.intro.clone(),
            social: clone_socials(&self.social),
            join_at: self.join_at,
        }
    }
}

/// The profile supplied when joining.
#[derive(Debug, PartialEq, Eq)]
pub struct JoinDaoParams {
    pub nickname: String,
    pub avatar: String,
    pub intro: String,
    pub social: Vec<Social>,
}

/// Public description of the organization.
#[derive(Debug, PartialEq, Eq)]
pub struct DaoInfo {
    pub name: String,
    pub poster: String,
    pub avatar: String,
    pub tags: Vec<String>,
    pub intro: String,
    pub canister_id: String,
    pub option: Option<PropertyMap>,
}

/// Ghost image of a [`DaoInfo`].
pub ghost struct DaoInfoView {
    pub name: Seq<char>,
    pub poster: Seq<char>,
    pub avatar: Seq<char>,
    pub tags: Seq<String>,
    pub intro: Seq<char>,
    pub canister_id: Seq<char>,
    pub option: Option<Seq<(String, String)>>,
}

impl View for DaoInfo {
    type V = DaoInfoView;

    open spec fn view(&self) -> DaoInfoView {
        DaoInfoView {
            name: self.name@,
            poster: self.poster@,
            avatar: self.avatar@,
            tags: self.tags@,
            intro: self.intro@,
            canister_id: self.canister_id@,
            option: props_view(&self.option),
        }
    }
}

impl Clone for DaoInfo {
    fn clone(&self) -> (r: Self)
        ensures
            r@ == self@,
    {
        DaoInfo {
            name: self.name.clone(),
            poster: self.poster.clone(),
            avatar: self.avatar.clone(),
            tags: clone_strings(&self.tags),
            intro: self.intro.clone(),
            canister_id: self.canister_id.clone(),
            option: clone_props(&self.option),
        }
    }
}

impl Default for DaoInfo {
    /// An empty description; the boundary layer fills in the canister id.
    fn default() -> (d: Self)
        ensures
            d@.name == Seq::<char>::empty(),
            d@.poster == Seq::<char>::empty(),
            d@.avatar == Seq::<char>::empty(),
            d@.tags == Seq::<String>::empty(),
            d@.intro == Seq::<char>::empty(),
            d@.canister_id == Seq::<char>::empty(),
            d@.option is None,
    {
        DaoInfo {
            name: String::new(),
            poster: String::new(),
            avatar: String::new(),
            tags: Vec::new(),
            intro: String::new(),
            canister_id: String::new(),
            option: None,
        }
    }
}

/// A vote request as submitted by a caller.  The `principal` field is
/// advisory only: the engine always acts on the authenticated caller.
#[derive(Clone, Copy, Debug, PartialEq, Eq, Structural)]
pub struct UserVoteArgs {
    pub principal: Option<Principal>,
    pub id: u64,
    pub vote: Votes,
}

/// A weighted-vote request in token units.
#[derive(Clone, Copy, Debug, PartialEq, Eq, Structural, Default)]
pub struct VoteArg {
    pub id: u64,
    pub ndp_count: u64,
}

/// What a caller submits to open a proposal.
#[derive(Debug, PartialEq, Eq)]
pub struct ProposalContent {
    pub title: String,
    pub content: String,
    pub end_time: u64,
    pub property: Option<PropertyMap>,
}

/// A proposal submission with the proposer filled in by the boundary.
#[derive(Debug, PartialEq, Eq)]
pub struct ProposalBody {
    pub proposer: Principal,
    pub title: String,
    pub content: String,
    pub end_time: u64,
    pub property: Option<PropertyMap>,
}

/// A proposer/proposal pairing.
#[derive(Clone, Copy, Debug, PartialEq, Eq, Structural)]
pub struct ProposerListItem {
    pub proposer: Principal,
    pub id: u64,
}

/// Tally summary recorded when a proposal settles.
#[derive(Clone, Copy, Debug, PartialEq, Eq, Structural)]
pub struct SettleSummary {
    pub yes_total: u128,
    pub no_total: u128,
}

/// A payout that the boundary layer reported as failed.
#[derive(Clone, Copy, Debug, PartialEq, Eq, Structural)]
pub struct PayoutFailure {
    pub to: Principal,
    pub amount: u128,
}

/// One line of the immutable settlement log.
pub type SettleRecord = (u64, Result<SettleSummary, PayoutFailure>);

/// Some member record carries this identity.
pub open spec fn has_member(s: Seq<MemberItems>, p: Principal) -> bool {
    exists|i: int| 0 <= i < s.len() && (#[trigger] s[i]).principal == p
}

/// Some member record carries this identity with joined status.
pub open spec fn member_is_joined(s: Seq<MemberItems>, p: Principal) -> bool {
    exists|i: int| 0 <= i < s.len() && (#[trigger] s[i]).principal == p && s[i].status_code == 1
}

/// Some ballot in the ledger was cast by this voter.
pub open spec fn has_vote(s: Seq<(Principal, Votes)>, p: Principal) -> bool {
    exists|i: int| 0 <= i < s.len() && (#[trigger] s[i]).0 == p
}

/// Law: a terminal proposal state is never left again.  Relates the
/// proposal store before and after one engine step: proposals are never
/// removed, ids never change, and a proposal that had already left `Open`
/// keeps exactly the state it had.  Every mutating operation of
/// [`DaoService`] ensures this.
pub open spec fn terminal_states_preserved(pre: Seq<Proposal>, post: Seq<Proposal>) -> bool {
    &&& post.len() >= pre.len()
    &&& forall|i: int|
        0 <= i < pre.len() ==> (#[trigger] post[i]).id == pre[i].id && (!(pre[i].proposal_state
            is Open) ==> post[i].proposal_state == pre[i].proposal_state)
}

/// Law: terminal-state preservation composes over any sequence of engine
/// steps, so once a proposal leaves `Open` its state never changes again,
/// no matter how many further operations run.
pub proof fn lemma_terminal_preservation_transitive(
    a: Seq<Proposal>,
    b: Seq<Proposal>,
    c: Seq<Proposal>,
)
    requires
        terminal_states_preserved(a, b),
        terminal_states_preserved(b, c),
    ensures
        terminal_states_preserved(a, c),
{
}

/// The membership directory, the proposal store and the settlement log,
/// owned together by the engine.
pub struct DaoService {
    pub member_list: Vec<MemberItems>,
    pub info: DaoInfo,
    pub proposals: Vec<Proposal>,
    pub pending_proposal: Vec<u64>,
    pub proposal_log: Vec<SettleRecord>,
}

/// The outcome of the voting checks that run before the escrow transfer.
pub open spec fn spec_validate_vote(
    s: DaoService,
    caller: Principal,
    id: u64,
    v: Votes,
    balance: u128,
    allowance: u128,
) -> Result<u64, DaoError> {
    if !has_member(s.member_list@, caller) {
        Err(DaoError::NotMember)
    } else if !(1 <= id && id <= s.proposals@.len()) {
        Err(DaoError::ProposalNotFound)
    } else {
        let p = s.proposals@[id - 1];
        if !(p.proposal_state is Open) {
            Err(DaoError::VotingClosed)
        } else if caller == p.proposer {
            Err(DaoError::SelfVoteForbidden)
        } else if balance < vote_amount(v) || balance < MIN_VOTE_BALANCE {
            Err(DaoError::InsufficientBalance)
        } else if allowance < vote_amount(v) {
            Err(DaoError::InsufficientAllowance)
        } else {
            Ok(
                match v {
                    Votes::Yes(a) => a,
                    Votes::No(a) => a,
                },
            )
        }
    }
}

/// The cheap re-checks the vote commit step repeats after the escrow
/// transfer: the proposal must still exist, still be open, and must not
/// belong to the voter.
pub open spec fn spec_vote_commit_check(
    s: DaoService,
    caller: Principal,
    id: u64,
) -> Option<DaoError> {
    if !(1 <= id && id <= s.proposals@.len()) {
        Some(DaoError::ProposalNotFound)
    } else if !(s.proposals@[id - 1].proposal_state is Open) {
        Some(DaoError::VotingClosed)
    } else if caller == s.proposals@[id - 1].proposer {
        Some(DaoError::SelfVoteForbidden)
    } else {
        None
    }
}

/// What one step of the expiry scan does: relates the engine state
/// before and after [`DaoService::check_proposal`] and the payouts it
/// hands back.  The most recently queued id is taken; an unexpired
/// proposal is re-queued untouched, a missing or already settled one is
/// dropped, and an expired open one moves to the terminal state its
/// tally determines, with a summary logged and the owed payouts
/// returned.
pub open spec fn check_proposal_step(
    pre: DaoService,
    post: DaoService,
    now: u64,
    payouts: Seq<Payout>,
) -> bool {
    &&& post.member_list@ == pre.member_list@
    &&& post.info == pre.info
    &&& if pre.pending_proposal@.len() == 0 {
        post == pre && payouts == Seq::<Payout>::empty()
    } else {
        let pend = pre.pending_proposal@;
        let id = pend.last();
        if !(1 <= id <= pre.proposals@.len()) {
            &&& post == (DaoService { pending_proposal: post.pending_proposal, ..pre })
            &&& post.pending_proposal@ == pend.drop_last()
            &&& payouts == Seq::<Payout>::empty()
        } else {
            let p = pre.proposals@[id - 1];
            if now <= p.end_time {
                &&& post == (DaoService { pending_proposal: post.pending_proposal, ..pre })
                &&& post.pending_proposal@ == pend
                &&& payouts == Seq::<Payout>::empty()
            } else if !(p.proposal_state is Open) {
                &&& post == (DaoService { pending_proposal: post.pending_proposal, ..pre })
                &&& post.pending_proposal@ == pend.drop_last()
                &&& payouts == Seq::<Payout>::empty()
            } else {
                let yt = yes_total(p.vote_data@);
                let nt = no_total(p.vote_data@);
                &&& post.pending_proposal@ == pend.drop_last()
                &&& post.proposals@.len() == pre.proposals@.len()
                &&& forall|j: int|
                    0 <= j < pre.proposals@.len() && j != id - 1 ==> post.proposals@[j]
                        == pre.proposals@[j]
                &&& post.proposals@[id - 1]@ == (ProposalView {
                    proposal_state: if yt > nt {
                        ProposalStateView::Accepted
                    } else {
                        ProposalStateView::Rejected
                    },
                    ..p@
                })
                &&& post.proposal_log@ == pre.proposal_log@.push(
                    (
                        id,
                        Result::<SettleSummary, PayoutFailure>::Ok(
                            SettleSummary { yes_total: yt as u128, no_total: nt as u128 },
                        ),
                    ),
                )
                &&& payouts == settlement_payouts(p@)
            }
        }
    }
}

impl DaoService {
    /// Everything the engine assumes about its own state: proposal ids
    /// are dense (the proposal with id `n` sits at slot `n - 1`), each
    /// vote ledger holds one ballot per voter, and each identity has one
    /// member record.
    pub open spec fn wf(&self) -> bool {
        &&& forall|i: int|
            0 <= i < self.proposals@.len() ==> (#[trigger] self.proposals@[i]).id == i + 1
        &&& forall|i: int| 0 <= i < self.proposals@.len() ==> (#[trigger] self.proposals@[i]).wf()
        &&& forall|i: int, j: int|
            0 <= i < j < self.member_list@.len() ==> (#[trigger] self.member_list@[i]).principal
                != (#[trigger] self.member_list@[j]).principal
    }

    /// Finds the slot of the member record for `p`, if any.
    fn find_member_index(&self, p: Principal) -> (r: Option<usize>)
        ensures
            r matches Some(j) ==> j < self.member_list@.len() && self.member_list@[
                j as int
            ].principal == p,
            r is None ==> !has_member(self.member_list@, p),
    {
        let n = self.member_list.len();
        for i in 0..n
            invariant
                n == self.member_list@.len(),
                forall|k: int| 0 <= k < i ==> (#[trigger] self.member_list@[k]).principal != p,
        {
            if self.member_list[i].principal.id == p.id {
                return Some(i);
            }
        }
        None
    }

    /// Whether this identity has a member record (joined or quit).
    pub fn is_member(&self, member: Principal) -> (r: Result<bool, DaoError>)
        ensures
            r == if has_member(self.member_list@, member) {
                Result::<bool, DaoError>::Ok(true)
            } else {
                Result::<bool, DaoError>::Err(DaoError::NotMember)
            },
    {
        match self.find_member_index(member) {
            Some(_) => Ok(true),
            None => Err(DaoError::NotMember),
        }
    }

    /// Registers the caller as a member.  Fails while the caller is
    /// already joined; an identity that quit earlier may join again, and
    /// its record is then replaced by the fresh profile.
    pub fn join(&mut self, principal: Principal, user_info: JoinDaoParams, now: u64) -> (r: Result<
        MemberItems,
        DaoError,
    >)
        requires
            old(self).wf(),
        ensures
            final(self).wf(),
            r is Err <==> member_is_joined(old(self).member_list@, principal),
            r is Err ==> r == Result::<MemberItems, DaoError>::Err(DaoError::AlreadyMember)
                && *final(self) == *old(self),
            r matches Ok(m) ==> {
                let rec = (MemberItems {
                    principal,
                    nickname: user_info.nickname,
                    status_code: 1,
                    avatar: user_info.avatar,
                    intro: user_info.intro,
                    social: user_info.social,
                    join_at: now,
                });
                &&& m@ == rec@
                &&& if has_member(old(self).member_list@, principal) {
                    &&& final(self).member_list@.len() == old(self).member_list@.len()
                    &&& forall|j: int|
                        0 <= j < old(self).member_list@.len() && (#[trigger] old(self).member_list@[j]).principal != principal ==> final(self).member_list@[j]
                            == old(self).member_list@[j]
                    &&& forall|j: int|
                        0 <= j < old(self).member_list@.len() && (#[trigger] old(self).member_list@[j]).principal == principal ==> final(self).member_list@[j]
                            == rec
                } else {
                    final(self).member_list@ == old(self).member_list@.push(rec)
                }
            },
            final(self).info == old(self).info,
            final(self).proposals@ == old(self).proposals@,
            final(self).pending_proposal@ == old(self).pending_proposal@,
            final(self).proposal_log@ == old(self).proposal_log@,
            terminal_states_preserved(old(self).proposals@, final(self).proposals@),
    {
        let found = self.find_member_index(principal);
        if let Some(i) = found {
            if self.member_list[i].status_code == 1 {
                return Err(DaoError::AlreadyMember);
            }
            let rec = MemberItems {
                principal,
                nickname: user_info.nickname,
                status_code: 1,
                avatar: user_info.avatar,
                intro: user_info.intro,
                social: user_info.social,
                join_at: now,
            };
            let returned = rec.clone();
            self.member_list.set(i, rec);
            Ok(returned)
        } else {
            let rec = MemberItems {
                principal,
                nickname: user_info.nickname,
                status_code: 1,
                avatar: user_info.avatar,
                intro: user_info.intro,
                social: user_info.social,
                join_at: now,
            };
            let returned = rec.clone();
            self.member_list.push(rec);
            Ok(returned)
        }
    }

    /// Marks the caller's member record as quit; the record stays.
    pub fn quit(&mut self, principal: Principal) -> (r: Result<MemberItems, DaoError>)
        requires
            old(self).wf(),
        ensures
            final(self).wf(),
            r is Err <==> !has_member(old(self).member_list@, principal),
            r is Err ==> r == Result::<MemberItems, DaoError>::Err(DaoError::NotMember) && *final(self) == *old(self),
            r matches Ok(m) ==> {
                &&& final(self).member_list@.len() == old(self).member_list@.len()
                &&& forall|j: int|
                    0 <= j < old(self).member_list@.len() && (#[trigger] old(self).member_list@[j]).principal != principal ==> final(self).member_list@[j]
                        == old(self).member_list@[j]
                &&& forall|j: int|
                    0 <= j < old(self).member_list@.len() && (#[trigger] old(self).member_list@[j]).principal == principal ==> final(self).member_list@[j] == (
                    MemberItems { status_code: -1i8, ..old(self).member_list@[j] }) && m@ == final(self).member_list@[j]@
            },
            final(self).info == old(self).info,
            final(self).proposals@ == old(self).proposals@,
            final(self).pending_proposal@ == old(self).pending_proposal@,
            final(self).proposal_log@ == old(self).proposal_log@,
            terminal_states_preserved(old(self).proposals@, final(self).proposals@),
    {
        let found = self.find_member_index(principal);
        match found {
            None => Err(DaoError::NotMember),
            Some(i) => {
                let old_rec = self.member_list.remove(i);
                let rec = MemberItems { status_code: -1, ..old_rec };
                let returned = rec.clone();
                self.member_list.insert(i, rec);
                proof {
                    assert(self.member_list@ =~= old(self).member_list@.update(
                        i as int,
                        self.member_list@[i as int],
                    ));
                }
                Ok(returned)
            },
        }
    }

    /// The member record for this identity, if any.
    pub fn user_info(&self, principal: Principal) -> (r: Result<MemberItems, DaoError>)
        ensures
            r is Ok <==> has_member(self.member_list@, principal),
            r matches Ok(m) ==> exists|i: int|
                0 <= i < self.member_list@.len() && (#[trigger] self.member_list@[i]).principal
                    == principal && m@ == self.member_list@[i]@,
            r is Err ==> r == Result::<MemberItems, DaoError>::Err(DaoError::NotMember),
    {
        match self.find_member_index(principal) {
            Some(i) => Ok(self.member_list[i].clone()),
            None => Err(DaoError::NotMember),
        }
    }

    /// A snapshot of every member record.
    pub fn member_list(&self) -> (r: Result<Vec<MemberItems>, DaoError>)
        ensures
            r matches Ok(v) ==> v@.len() == self.member_list@.len() && forall|i: int|
                0 <= i < v@.len() ==> (#[trigger] v@[i])@ == self.member_list@[i]@,
            r is Ok,
    {
        let mut out: Vec<MemberItems> = Vec::new();
        let n = self.member_list.len();
        for i in 0..n
            invariant
                n == self.member_list@.len(),
                out@.len() == i,
                forall|k: int| 0 <= k < i ==> (#[trigger] out@[k])@ == self.member_list@[k]@,
        {
            out.push(self.member_list[i].clone());
        }
        Ok(out)
    }

    /// The public organization description.
    pub fn dao_info(&self) -> (r: Result<DaoInfo, DaoError>)
        ensures
            r matches Ok(d) ==> d@ == self.info@,
            r is Ok,
    {
        Ok(self.info.clone())
    }

    /// Replaces the caller-editable parts of the description; the
    /// canister id and the custom field map are kept.
    pub fn update_dao_info(&mut self, dao_info: DaoInfo) -> (r: Result<DaoInfo, DaoError>)
        requires
            old(self).wf(),
        ensures
            final(self).wf(),
            final(self).info@ == (DaoInfoView {
                name: dao_info@.name,
                poster: dao_info@.poster,
                avatar: dao_info@.avatar,
                tags: dao_info@.tags,
                intro: dao_info@.intro,
                canister_id: old(self).info@.canister_id,
                option: old(self).info@.option,
            }),
            r matches Ok(d) ==> d@ == final(self).info@,
            r is Ok,
            final(self).member_list@ == old(self).member_list@,
            final(self).proposals@ == old(self).proposals@,
            final(self).pending_proposal@ == old(self).pending_proposal@,
            final(self).proposal_log@ == old(self).proposal_log@,
            terminal_states_preserved(old(self).proposals@, final(self).proposals@),
    {
        self.info.name = dao_info.name;
        self.info.poster = dao_info.poster;
        self.info.avatar = dao_info.avatar;
        self.info.tags = dao_info.tags;
        self.info.intro = dao_info.intro;
        self.dao_info()
    }

    /// The checks that must pass before the proposer's stake is escrowed:
    /// the stake meets the policy minimum and the proposer's balance
    /// covers it, and the allowance granted to the custody account covers
    /// it.  Returns the amount the boundary layer must transfer; nothing
    /// is mutated here.
    pub fn propose_plan(&self, stake: u64, balance: u128, allowance: u128) -> (r: Result<
        u64,
        DaoError,
    >)
        ensures
            r == if stake < MIN_PROPOSAL_STAKE || balance < stake {
                Result::<u64, DaoError>::Err(DaoError::InsufficientBalance)
            } else if allowance < stake {
                Result::<u64, DaoError>::Err(DaoError::InsufficientAllowance)
            } else {
                Result::<u64, DaoError>::Ok(stake)
            },
    {
        if stake < MIN_PROPOSAL_STAKE || balance < stake as u128 {
            Err(DaoError::InsufficientBalance)
        } else if allowance < stake as u128 {
            Err(DaoError::InsufficientAllowance)
        } else {
            Ok(stake)
        }
    }

    /// Records a new proposal once its stake has been escrowed: a fresh
    /// id is assigned, the proposal starts `Open` with an empty vote
    /// ledger, and it is queued for the expiry scan.  The store must
    /// still have an unused id, which only the width of the id type
    /// bounds.
    pub fn propose(&mut self, body: ProposalBody, stake: u64, now: u64) -> (p: Proposal)
        requires
            old(self).wf(),
            old(self).proposals@.len() < u64::MAX,
        ensures
            final(self).wf(),
            final(self).proposals@.len() == old(self).proposals@.len() + 1,
            forall|j: int|
                0 <= j < old(self).proposals@.len() ==> final(self).proposals@[j] == old(self).proposals@[j],
            final(self).proposals@.last()@ == (ProposalView {
                id: (old(self).proposals@.len() + 1) as u64,
                proposer: body.proposer,
                title: body.title@,
                content: body.content@,
                property: props_view(&body.property),
                created_at: now,
                end_time: body.end_time,
                proposer_stake: stake,
                proposal_state: ProposalStateView::Open,
                vote_data: Seq::empty(),
            }),
            p@ == final(self).proposals@.last()@,
            final(self).pending_proposal@ == old(self).pending_proposal@.push(
                (old(self).proposals@.len() + 1) as u64,
            ),
            final(self).member_list@ == old(self).member_list@,
            final(self).info == old(self).info,
            final(self).proposal_log@ == old(self).proposal_log@,
            terminal_states_preserved(old(self).proposals@, final(self).proposals@),
    {
        let id = self.proposals.len() as u64 + 1;
        let rec = Proposal {
            id,
            proposer: body.proposer,
            title: body.title,
            content: body.content,
            property: body.property,
            created_at: now,
            end_time: body.end_time,
            proposer_stake: stake,
            proposal_state: ProposalState::Open,
            vote_data: Vec::new(),
        };
        let returned = rec.clone();
        self.proposals.push(rec);
        self.pending_proposal.push(id);
        returned
    }

    /// The checks that run before a vote's stake is escrowed, in order:
    /// membership, proposal existence, open state, no self-vote, balance,
    /// allowance.  Returns the stake the boundary layer must transfer;
    /// nothing is mutated here.  The ballot in `arg` speaks for the
    /// authenticated caller, whatever identity `arg` claims.
    pub fn validate_before_vote(
        &self,
        caller: Principal,
        arg: UserVoteArgs,
        balance: u128,
        allowance: u128,
    ) -> (r: Result<u64, DaoError>)
        ensures
            r == spec_validate_vote(*self, caller, arg.id, arg.vote, balance, allowance),
    {
        if self.find_member_index(caller).is_none() {
            return Err(DaoError::NotMember);
        }
        if !(1 <= arg.id && arg.id <= self.proposals.len() as u64) {
            return Err(DaoError::ProposalNotFound);
        }
        let idx = (arg.id - 1) as usize;
        let proposal = &self.proposals[idx];
        if !(matches!(proposal.proposal_state, ProposalState::Open)) {
            return Err(DaoError::VotingClosed);
        }
        if caller.id == proposal.proposer.id {
            return Err(DaoError::SelfVoteForbidden);
        }
        let amount: u64 = match arg.vote {
            Votes::Yes(a) => a,
            Votes::No(a) => a,
        };
        if balance < amount as u128 || balance < MIN_VOTE_BALANCE as u128 {
            return Err(DaoError::InsufficientBalance);
        }
        if allowance < amount as u128 {
            return Err(DaoError::InsufficientAllowance);
        }
        Ok(amount)
    }

    /// Records the caller's ballot once its stake has been escrowed.  The
    /// proposal must still exist, still be open and not be the caller's
    /// own — the open check is repeated here because a settlement scan
    /// may have run between validation and commit.  A caller who already
    /// voted has their earlier ballot overwritten (last write wins).
    pub fn vote(&mut self, caller: Principal, arg: UserVoteArgs) -> (r: Result<(), DaoError>)
        requires
            old(self).wf(),
        ensures
            final(self).wf(),
            r is Err ==> *final(self) == *old(self),
            r is Err <==> spec_vote_commit_check(*old(self), caller, arg.id) is Some,
            r matches Err(e) ==> Some(e) == spec_vote_commit_check(*old(self), caller, arg.id),
            r is Ok ==> {
                let idx = arg.id - 1;
                let ov = old(self).proposals@[idx].vote_data@;
                let nv = final(self).proposals@[idx].vote_data@;
                &&& final(self).proposals@.len() == old(self).proposals@.len()
                &&& forall|j: int|
                    0 <= j < old(self).proposals@.len() && j != idx ==> final(self).proposals@[j]
                        == old(self).proposals@[j]
                &&& final(self).proposals@[idx]@ == (ProposalView {
                    vote_data: nv,
                    ..old(self).proposals@[idx]@
                })
                &&& if has_vote(ov, caller) {
                    &&& nv.len() == ov.len()
                    &&& forall|j: int|
                        0 <= j < ov.len() && (#[trigger] ov[j]).0 != caller ==> nv[j] == ov[j]
                    &&& forall|j: int|
                        0 <= j < ov.len() && (#[trigger] ov[j]).0 == caller ==> nv[j] == (
                        caller,
                        arg.vote,
                        )
                } else {
                    nv == ov.push((caller, arg.vote))
                }
            },
            final(self).member_list@ == old(self).member_list@,
            final(self).info == old(self).info,
            final(self).pending_proposal@ == old(self).pending_proposal@,
            final(self).proposal_log@ == old(self).proposal_log@,
            terminal_states_preserved(old(self).proposals@, final(self).proposals@),
    {
        if !(1 <= arg.id && arg.id <= self.proposals.len() as u64) {
            return Err(DaoError::ProposalNotFound);
        }
        let idx = (arg.id - 1) as usize;
        if !(matches!(self.proposals[idx].proposal_state, ProposalState::Open)) {
            return Err(DaoError::VotingClosed);
        }
        if caller.id == self.proposals[idx].proposer.id {
            return Err(DaoError::SelfVoteForbidden);
        }
        let mut proposal = self.proposals.remove(idx);
        let pos = find_voter(&proposal.vote_data, caller);
        match pos {
            Some(j) => {
                proposal.vote_data.set(j, (caller, arg.vote));
            },
            None => {
                proposal.vote_data.push((caller, arg.vote));
            },
        }
        self.proposals.insert(idx, proposal);
        proof {
            assert(self.proposals@ =~= old(self).proposals@.update(
                idx as int,
                self.proposals@[idx as int],
            ));
        }
        Ok(())
    }

    /// The proposal with this id.
    pub fn get_proposal(&self, id: u64) -> (r: Result<Proposal, DaoError>)
        requires
            self.wf(),
        ensures
            r is Ok <==> 1 <= id <= self.proposals@.len(),
            r matches Ok(p) ==> p@ == self.proposals@[id - 1]@,
            r is Err ==> r == Result::<Proposal, DaoError>::Err(DaoError::ProposalNotFound),
    {
        if 1 <= id && id <= self.proposals.len() as u64 {
            Ok(self.proposals[(id - 1) as usize].clone())
        } else {
            Err(DaoError::ProposalNotFound)
        }
    }

    /// A snapshot of every proposal, keyed by id.
    pub fn proposal_list(&self) -> (r: Vec<(u64, Proposal)>)
        requires
            self.wf(),
        ensures
            r@.len() == self.proposals@.len(),
            forall|i: int|
                0 <= i < r@.len() ==> (#[trigger] r@[i]).0 == self.proposals@[i].id && r@[i].1@
                    == self.proposals@[i]@,
    {
        let mut out: Vec<(u64, Proposal)> = Vec::new();
        let n = self.proposals.len();
        for i in 0..n
            invariant
                n == self.proposals@.len(),
                out@.len() == i,
                forall|k: int|
                    0 <= k < i ==> (#[trigger] out@[k]).0 == self.proposals@[k].id && out@[k].1@
                        == self.proposals@[k]@,
        {
            let p = self.proposals[i].clone();
            out.push((p.id, p));
        }
        out
    }

    /// The settlement log: one record per settled proposal, plus one
    /// record per payout the boundary layer reported as failed.
    pub fn get_handled_proposal(&self) -> (r: Vec<SettleRecord>)
        ensures
            r@ == self.proposal_log@,
    {
        let mut out: Vec<SettleRecord> = Vec::new();
        let n = self.proposal_log.len();
        for i in 0..n
            invariant
                n == self.proposal_log@.len(),
                out@ == self.proposal_log@.take(i as int),
        {
            out.push(self.proposal_log[i]);
            proof {
                assert(self.proposal_log@.take(i + 1) =~= self.proposal_log@.take(
                    i as int,
                ).push(self.proposal_log@[i as int]));
            }
        }
        proof {
            assert(self.proposal_log@.take(n as int) =~= self.proposal_log@);
        }
        out
    }

    /// Appends a per-recipient failure record after the boundary layer
    /// could not deliver one settlement payout.  The settlement itself is
    /// not retried; the log is the operator's audit trail.
    pub fn record_payout_failure(&mut self, id: u64, to: Principal, amount: u128)
        requires
            old(self).wf(),
        ensures
            final(self).wf(),
            final(self).proposal_log@ == old(self).proposal_log@.push(
                (id, Result::<SettleSummary, PayoutFailure>::Err(PayoutFailure { to, amount })),
            ),
            final(self).member_list@ == old(self).member_list@,
            final(self).info == old(self).info,
            final(self).proposals@ == old(self).proposals@,
            final(self).pending_proposal@ == old(self).pending_proposal@,
            terminal_states_preserved(old(self).proposals@, final(self).proposals@),
    {
        self.proposal_log.push((id, Err(PayoutFailure { to, amount })));
    }

    /// One step of the expiry scan.  Takes the most recently queued
    /// proposal id; a proposal that has not expired is re-queued, a
    /// missing or already settled one is dropped, and an expired open one
    /// is settled: its tally decides the terminal state, a summary is
    /// logged, and the payouts owed are handed back for the boundary
    /// layer to transfer one by one.  Only the `Open` state — not the
    /// clock — decides whether payouts are computed, so a proposal is
    /// settled at most once.
    pub fn check_proposal(&mut self, now: u64) -> (payouts: Vec<Payout>)
        requires
            old(self).wf(),
        ensures
            final(self).wf(),
            check_proposal_step(*old(self), *final(self), now, payouts@),
            terminal_states_preserved(old(self).proposals@, final(self).proposals@),
    {
        if self.pending_proposal.len() == 0 {
            return Vec::new();
        }
        let id = match self.pending_proposal.pop() {
            Some(id) => id,
            None => {
                return Vec::new();
            },
        };
        if !(1 <= id && id <= self.proposals.len() as u64) {
            return Vec::new();
        }
        let idx = (id - 1) as usize;
        if now <= self.proposals[idx].end_time {
            self.pending_proposal.push(id);
            proof {
                assert(self.pending_proposal@ =~= old(self).pending_proposal@);
            }
            return Vec::new();
        }
        if !(matches!(self.proposals[idx].proposal_state, ProposalState::Open)) {
            return Vec::new();
        }
        let mut proposal = self.proposals.remove(idx);
        let (yes, no, _yes_n, _no_n) = tally_votes(&proposal.vote_data);
        let payouts = build_settlement_payouts(&proposal);
        proposal.proposal_state = if yes > no {
            ProposalState::Accepted
        } else {
            ProposalState::Rejected
        };
        self.proposals.insert(idx, proposal);
        self.proposal_log.push(
            (id, Ok(SettleSummary { yes_total: yes, no_total: no })),
        );
        proof {
            assert(self.proposals@ =~= old(self).proposals@.update(
                idx as int,
                self.proposals@[idx as int],
            ));
        }
        payouts
    }
}

/// Finds the slot of the ballot cast by `p`, if any.
fn find_voter(votes: &Vec<(Principal, Votes)>, p: Principal) -> (r: Option<usize>)
    ensures
        r matches Some(j) ==> j < votes@.len() && votes@[j as int].0 == p,
        r is None ==> !has_vote(votes@, p),
{
    let n = votes.len();
    for i in 0..n
        invariant
            n == votes@.len(),
            forall|k: int| 0 <= k < i ==> (#[trigger] votes@[k]).0 != p,
    {
        if votes[i].0.id == p.id {
            return Some(i);
        }
    }
    None
}

impl Default for DaoService {
    /// An empty engine: no members, no proposals, empty log.
    fn default() -> (s: Self)
        ensures
            s.wf(),
            s.member_list@.len() == 0,
            s.proposals@.len() == 0,
            s.pending_proposal@.len() == 0,
            s.proposal_log@.len() == 0,
            s.info@.name == Seq::<char>::empty(),
            s.info@.canister_id == Seq::<char>::empty(),
    {
        DaoService {
            member_list: Vec::new(),
            info: Default::default(),
            proposals: Vec::new(),
            pending_proposal: Vec::new(),
            proposal_log: Vec::new(),
        }
    }
}

} // verus!

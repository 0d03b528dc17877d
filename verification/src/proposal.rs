//! The proposal record, its vote ledger, and the settlement arithmetic:
//! tallying stake-weighted votes and computing the payouts owed to the
//! winning side once a proposal expires.

use vstd::arithmetic::div_mod::lemma_fundamental_div_mod;
use vstd::arithmetic::mul::lemma_mul_inequality;
use vstd::arithmetic::mul::lemma_mul_is_distributive_add;
use vstd::prelude::*;

use crate::types::Principal;

verus! {

/// A ballot: the side taken and the stake escrowed for it.
#[derive(Clone, Copy, Debug, PartialEq, Eq, Structural)]
pub enum Votes {
    Yes(u64),
    No(u64),
}

/// Lifecycle of a proposal.  `Open` is the initial state; every other
/// state is terminal and is never left again.
#[derive(Debug, PartialEq, Eq)]
pub enum ProposalState {
    Open,
    Accepted,
    Rejected,
    Succeeded,
    Failed(String),
}

/// Ghost image of a [`ProposalState`], with the failure reason as a
/// character sequence.
pub ghost enum ProposalStateView {
    Open,
    Accepted,
    Rejected,
    Succeeded,
    Failed(Seq<char>),
}

impl View for ProposalState {
    type V = ProposalStateView;

    open spec fn view(&self) -> ProposalStateView {
        match self {
            ProposalState::Open => ProposalStateView::Open,
            ProposalState::Accepted => ProposalStateView::Accepted,
            ProposalState::Rejected => ProposalStateView::Rejected,
            ProposalState::Succeeded => ProposalStateView::Succeeded,
            ProposalState::Failed(reason) => ProposalStateView::Failed(reason@),
        }
    }
}

impl Clone for ProposalState {
    fn clone(&self) -> (r: Self)
        ensures
            r == *self,
    {
        match self {
            ProposalState::Open => ProposalState::Open,
            ProposalState::Accepted => ProposalState::Accepted,
            ProposalState::Rejected => ProposalState::Rejected,
            ProposalState::Succeeded => ProposalState::Succeeded,
            ProposalState::Failed(reason) => ProposalState::Failed(reason.clone()),
        }
    }
}

/// A proposal's free-form property map, as a list of key/value pairs.
pub type PropertyMap = Vec<(String, String)>;

/// Ghost image of an optional property map.
pub open spec fn props_view(p: &Option<PropertyMap>) -> Option<Seq<(String, String)>> {
    match p {
        Some(v) => Some(v@),
        None => None,
    }
}

/// One proposal: the state machine plus its vote ledger.  Ids are assigned
/// by the engine, are unique, and are never reused; the vote ledger keeps
/// at most one ballot per voter (a re-vote overwrites the earlier ballot).
#[derive(Debug)]
pub struct Proposal {
    pub id: u64,
    pub proposer: Principal,
    pub title: String,
    pub content: String,
    pub property: Option<PropertyMap>,
    pub created_at: u64,
    pub end_time: u64,
    pub proposer_stake: u64,
    pub proposal_state: ProposalState,
    pub vote_data: Vec<(Principal, Votes)>,
}

/// Ghost image of a [`Proposal`].
pub ghost struct ProposalView {
    pub id: u64,
    pub proposer: Principal,
    pub title: Seq<char>,
    pub content: Seq<char>,
    pub property: Option<Seq<(String, String)>>,
    pub created_at: u64,
    pub end_time: u64,
    pub proposer_stake: u64,
    pub proposal_state: ProposalStateView,
    pub vote_data: Seq<(Principal, Votes)>,
}

impl View for Proposal {
    type V = ProposalView;

    open spec fn view(&self) -> ProposalView {
        ProposalView {
            id: self.id,
            proposer: self.proposer,
            title: self.title@,
            content: self.content@,
            property: props_view(&self.property),
            created_at: self.created_at,
            end_time: self.end_time,
            proposer_stake: self.proposer_stake,
            proposal_state: self.proposal_state@,
            vote_data: self.vote_data@,
        }
    }
}

/// Copies an optional property map; the copy shows the same pairs.
pub fn clone_props(p: &Option<PropertyMap>) -> (r: Option<PropertyMap>)
    ensures
        props_view(&r) == props_view(p),
{
    match p {
        None => None,
        Some(v) => {
            let mut out: PropertyMap = Vec::new();
            let n = v.len();
            for i in 0..n
                invariant
                    n == v@.len(),
                    out@ == v@.take(i as int),
            {
                out.push((v[i].0.clone(), v[i].1.clone()));
                proof {
                    assert(v@.take(i + 1) =~= v@.take(i as int).push(v@[i as int]));
                }
            }
            proof {
                assert(v@.take(n as int) =~= v@);
            }
            Some(out)
        },
    }
}

/// Copies a vote ledger.
pub fn clone_votes(v: &Vec<(Principal, Votes)>) -> (r: Vec<(Principal, Votes)>)
    ensures
        r@ == v@,
{
    let mut out: Vec<(Principal, Votes)> = Vec::new();
    let n = v.len();
    for i in 0..n
        invariant
            n == v@.len(),
            out@ == v@.take(i as int),
    {
        out.push(v[i]);
        proof {
            assert(v@.take(i + 1) =~= v@.take(i as int).push(v@[i as int]));
        }
    }
    proof {
        assert(v@.take(n as int) =~= v@);
    }
    out
}

impl Clone for Proposal {
    fn clone(&self) -> (r: Self)
        ensures
            r@ == self@,
    {
        Proposal {
            id: self.id,
            proposer: self.proposer,
            title: self.title.clone(),
            content: self.content.clone(),
            property: clone_props(&self.property),
            created_at: self.created_at,
            end_time: self.end_time,
            proposer_stake: self.proposer_stake,
            proposal_state: self.proposal_state.clone(),
            vote_data: clone_votes(&self.vote_data),
        }
    }
}

/// No voter appears twice in a vote ledger.
pub open spec fn voters_unique(s: Seq<(Principal, Votes)>) -> bool {
    forall|i: int, j: int| 0 <= i < j < s.len() ==> (#[trigger] s[i]).0 != (#[trigger] s[j]).0
}

impl Proposal {
    /// Internal consistency of a single proposal record.
    pub open spec fn wf(&self) -> bool {
        voters_unique(self.vote_data@)
    }
}

/// The stake committed by a ballot, whichever side it takes.
pub open spec fn vote_amount(v: Votes) -> int {
    match v {
        Votes::Yes(a) => a as int,
        Votes::No(a) => a as int,
    }
}

/// Sum of the stakes of all yes ballots.
pub open spec fn yes_total(s: Seq<(Principal, Votes)>) -> int
    decreases s.len(),
{
    if s.len() == 0 {
        0
    } else {
        yes_total(s.drop_last()) + match s.last().1 {
            Votes::Yes(a) => a as int,
            Votes::No(_) => 0,
        }
    }
}

/// Sum of the stakes of all no ballots.
pub open spec fn no_total(s: Seq<(Principal, Votes)>) -> int
    decreases s.len(),
{
    if s.len() == 0 {
        0
    } else {
        no_total(s.drop_last()) + match s.last().1 {
            Votes::Yes(_) => 0,
            Votes::No(a) => a as int,
        }
    }
}

/// Number of yes ballots.
pub open spec fn yes_count(s: Seq<(Principal, Votes)>) -> int
    decreases s.len(),
{
    if s.len() == 0 {
        0
    } else {
        yes_count(s.drop_last()) + if s.last().1 is Yes {
            1int
        } else {
            0int
        }
    }
}

/// Number of no ballots.
pub open spec fn no_count(s: Seq<(Principal, Votes)>) -> int
    decreases s.len(),
{
    if s.len() == 0 {
        0
    } else {
        no_count(s.drop_last()) + if s.last().1 is No {
            1int
        } else {
            0int
        }
    }
}

/// The equal share of the losing pool handed to the proposer and to each
/// yes voter; one extra share is reserved for the proposer, which also
/// keeps the division well defined when nobody voted no.
pub open spec fn per_share(no_total: int, no_count: int) -> int {
    no_total / (no_count + 1)
}

/// One payout owed after settlement.
#[derive(Clone, Copy, Debug, PartialEq, Eq, Structural)]
pub struct Payout {
    pub to: Principal,
    pub amount: u128,
}

/// The payouts owed to the yes voters after an accepted outcome, in ledger
/// order: each yes voter gets their own stake back plus `per` from the
/// losing pool.
pub open spec fn accepted_vote_payouts(s: Seq<(Principal, Votes)>, per: int) -> Seq<Payout>
    decreases s.len(),
{
    if s.len() == 0 {
        Seq::empty()
    } else {
        let rest = accepted_vote_payouts(s.drop_last(), per);
        match s.last().1 {
            Votes::Yes(a) => rest.push(
                Payout { to: s.last().0, amount: (a + per) as u128 },
            ),
            Votes::No(_) => rest,
        }
    }
}

/// The refunds owed to the no voters after a rejected outcome, in ledger
/// order: each no voter gets exactly their own stake back.
pub open spec fn rejected_vote_refunds(s: Seq<(Principal, Votes)>) -> Seq<Payout>
    decreases s.len(),
{
    if s.len() == 0 {
        Seq::empty()
    } else {
        let rest = rejected_vote_refunds(s.drop_last());
        match s.last().1 {
            Votes::Yes(_) => rest,
            Votes::No(a) => rest.push(Payout { to: s.last().0, amount: a as u128 }),
        }
    }
}

/// Sum of the amounts of a payout list.
pub open spec fn sum_payout_amounts(s: Seq<Payout>) -> int
    decreases s.len(),
{
    if s.len() == 0 {
        0
    } else {
        sum_payout_amounts(s.drop_last()) + s.last().amount as int
    }
}

/// Every payout the settlement of `p` owes, for whichever outcome its
/// tally determines.  A proposal nobody voted on pays nothing (the
/// proposer's stake is forfeited by policy); an accepted proposal pays the
/// proposer their stake plus a share of the losing pool and each yes voter
/// their stake plus the same share; a rejected proposal refunds each no
/// voter exactly their stake.
pub open spec fn settlement_payouts(p: ProposalView) -> Seq<Payout> {
    let s = p.vote_data;
    let yt = yes_total(s);
    let nt = no_total(s);
    if yt == 0 && nt == 0 {
        Seq::empty()
    } else if yt > nt {
        let per = per_share(nt, no_count(s));
        seq![Payout { to: p.proposer, amount: (p.proposer_stake + per) as u128 }]
            + accepted_vote_payouts(s, per)
    } else {
        rejected_vote_refunds(s)
    }
}

/// The terminal state the settlement of `p` assigns.
pub open spec fn settlement_state(p: ProposalView) -> ProposalStateView {
    if yes_total(p.vote_data) > no_total(p.vote_data) {
        ProposalStateView::Accepted
    } else {
        ProposalStateView::Rejected
    }
}

/// Totals and counts are bounded by the ledger's length.
pub proof fn lemma_totals_bounded(s: Seq<(Principal, Votes)>)
    ensures
        0 <= yes_count(s) <= s.len(),
        0 <= no_count(s) <= s.len(),
        0 <= yes_total(s) <= yes_count(s) * (u64::MAX as int),
        0 <= no_total(s) <= no_count(s) * (u64::MAX as int),
    decreases s.len(),
{
    if s.len() > 0 {
        lemma_totals_bounded(s.drop_last());
    }
}

/// The payouts of the accepted outcome add up to the returned yes stakes
/// plus one share for each yes voter.
pub proof fn lemma_accepted_payout_sum(s: Seq<(Principal, Votes)>, per: int)
    requires
        0 <= per,
        per + u64::MAX < u128::MAX,
    ensures
        sum_payout_amounts(accepted_vote_payouts(s, per)) == yes_total(s) + per * yes_count(s),
    decreases s.len(),
{
    if s.len() == 0 {
    } else {
        lemma_accepted_payout_sum(s.drop_last(), per);
        let rest = accepted_vote_payouts(s.drop_last(), per);
        match s.last().1 {
            Votes::Yes(a) => {
                let entry = Payout { to: s.last().0, amount: (a + per) as u128 };
                assert(rest.push(entry).drop_last() =~= rest);
                assert(rest.push(entry).last() == entry);
                lemma_mul_is_distributive_add(per, yes_count(s.drop_last()), 1);
            },
            Votes::No(_) => {},
        }
    }
}

/// The refunds of the rejected outcome add up to exactly the no pool.
pub proof fn lemma_rejected_refund_sum(s: Seq<(Principal, Votes)>)
    ensures
        sum_payout_amounts(rejected_vote_refunds(s)) == no_total(s),
    decreases s.len(),
{
    if s.len() > 0 {
        lemma_rejected_refund_sum(s.drop_last());
        let rest = rejected_vote_refunds(s.drop_last());
        match s.last().1 {
            Votes::Yes(_) => {},
            Votes::No(a) => {
                let entry = Payout { to: s.last().0, amount: a as u128 };
                assert(rest.push(entry).drop_last() =~= rest);
                assert(rest.push(entry).last() == entry);
            },
        }
    }
}

/// Law: settlement never creates value.  Whatever the outcome, the sum of
/// the payouts a settlement owes stays within what was escrowed for the
/// proposal: the proposer's stake plus every ballot's stake.  For the
/// accepted outcome this needs the yes ballots not to outnumber the no
/// ballots, since the share of the losing pool is computed per no voter
/// but paid per yes voter.
pub proof fn lemma_settlement_conserves_escrow(p: ProposalView)
    requires
        p.vote_data.len() <= usize::MAX,
        yes_total(p.vote_data) > no_total(p.vote_data) ==> yes_count(p.vote_data) <= no_count(
            p.vote_data,
        ),
    ensures
        sum_payout_amounts(settlement_payouts(p)) <= p.proposer_stake + yes_total(p.vote_data)
            + no_total(p.vote_data),
        yes_total(p.vote_data) == 0 && no_total(p.vote_data) == 0 ==> sum_payout_amounts(
            settlement_payouts(p),
        ) == 0,
        yes_total(p.vote_data) > no_total(p.vote_data) ==> sum_payout_amounts(
            settlement_payouts(p),
        ) == p.proposer_stake + yes_total(p.vote_data) + per_share(
            no_total(p.vote_data),
            no_count(p.vote_data),
        ) * (yes_count(p.vote_data) + 1),
        no_total(p.vote_data) > 0 && yes_total(p.vote_data) <= no_total(p.vote_data)
            ==> sum_payout_amounts(settlement_payouts(p)) == no_total(p.vote_data),
{
    let s = p.vote_data;
    let yt = yes_total(s);
    let nt = no_total(s);
    let nc = no_count(s);
    let yc = yes_count(s);
    lemma_totals_bounded(s);
    if yt == 0 && nt == 0 {
    } else if yt > nt {
        let per = per_share(nt, nc);
        assert(0 <= per <= nt) by (nonlinear_arith)
            requires
                0 <= nt,
                0 <= nc,
                per == nt / (nc + 1),
        ;
        assert(per + u64::MAX < u128::MAX) by {
            assert(nt <= nc * (u64::MAX as int));
            assert(nc * (u64::MAX as int) <= (usize::MAX as int) * (u64::MAX as int)) by {
                lemma_mul_inequality(nc, usize::MAX as int, u64::MAX as int);
            }
        }
        lemma_accepted_payout_sum(s, per);
        // One share to each yes voter and one to the proposer never
        // exceeds the losing pool while shares outstanding stay within
        // the `no_count + 1` the pool was divided by.
        assert(per * (nc + 1) <= nt) by {
            lemma_fundamental_div_mod(nt, nc + 1);
        }
        assert(per * (yc + 1) <= per * (nc + 1)) by {
            lemma_mul_inequality(yc + 1, nc + 1, per);
        }
        lemma_mul_is_distributive_add(per, yc, 1);
        let head = seq![Payout { to: p.proposer, amount: (p.proposer_stake + per) as u128 }];
        let tail = accepted_vote_payouts(s, per);
        lemma_sum_payouts_concat(head, tail);
        assert(sum_payout_amounts(head) == (p.proposer_stake + per) as u128) by {
            assert(head.drop_last() =~= Seq::<Payout>::empty());
            assert(sum_payout_amounts(Seq::<Payout>::empty()) == 0);
            assert(head.last() == (Payout {
                to: p.proposer,
                amount: (p.proposer_stake + per) as u128,
            }));
        }
    } else {
        lemma_rejected_refund_sum(s);
    }
}

/// Summing a concatenation of payout lists sums both parts.
pub proof fn lemma_sum_payouts_concat(a: Seq<Payout>, b: Seq<Payout>)
    ensures
        sum_payout_amounts(a + b) == sum_payout_amounts(a) + sum_payout_amounts(b),
    decreases b.len(),
{
    if b.len() == 0 {
        assert(a + b =~= a);
    } else {
        lemma_sum_payouts_concat(a, b.drop_last());
        assert((a + b).drop_last() =~= a + b.drop_last());
        assert((a + b).last() == b.last());
    }
}

/// Tallies a vote ledger: yes stake, no stake, yes ballots, no ballots.
pub fn tally_votes(votes: &Vec<(Principal, Votes)>) -> (t: (u128, u128, usize, usize))
    ensures
        t.0 == yes_total(votes@),
        t.1 == no_total(votes@),
        t.2 == yes_count(votes@),
        t.3 == no_count(votes@),
{
    let ghost s = votes@;
    let mut yes: u128 = 0;
    let mut no: u128 = 0;
    let mut yes_n: usize = 0;
    let mut no_n: usize = 0;
    let n = votes.len();
    for i in 0..n
        invariant
            n == s.len(),
            votes@ == s,
            yes == yes_total(s.take(i as int)),
            no == no_total(s.take(i as int)),
            yes_n == yes_count(s.take(i as int)),
            no_n == no_count(s.take(i as int)),
    {
        proof {
            assert(s.take(i + 1).drop_last() =~= s.take(i as int));
            assert(s.take(i + 1).last() == s[i as int]);
            lemma_totals_bounded(s.take(i as int));
            assert(yes_count(s.take(i as int)) <= i);
            assert(no_count(s.take(i as int)) <= i);
            assert(yes_total(s.take(i as int)) <= yes_count(s.take(i as int)) * (
            u64::MAX as int));
            lemma_mul_inequality(yes_count(s.take(i as int)), usize::MAX as int, u64::MAX as int);
            assert(no_total(s.take(i as int)) <= no_count(s.take(i as int)) * (u64::MAX as int));
            lemma_mul_inequality(no_count(s.take(i as int)), usize::MAX as int, u64::MAX as int);
        }
        match votes[i].1 {
            Votes::Yes(a) => {
                yes = yes + a as u128;
                yes_n = yes_n + 1;
            },
            Votes::No(a) => {
                no = no + a as u128;
                no_n = no_n + 1;
            },
        }
    }
    proof {
        assert(s.take(n as int) =~= s);
    }
    (yes, no, yes_n, no_n)
}

/// Builds the payout list the settlement of `p` owes.
pub fn build_settlement_payouts(p: &Proposal) -> (payouts: Vec<Payout>)
    ensures
        payouts@ == settlement_payouts(p@),
{
    let ghost s = p.vote_data@;
    let (yes, no, _yes_n, no_n) = tally_votes(&p.vote_data);
    let mut out: Vec<Payout> = Vec::new();
    if yes == 0 && no == 0 {
        proof {
            assert(out@ =~= settlement_payouts(p@));
        }
        return out;
    }
    proof {
        lemma_totals_bounded(s);
        lemma_mul_inequality(no_count(s), usize::MAX as int, u64::MAX as int);
    }
    if yes > no {
        let per: u128 = no / (no_n as u128 + 1);
        proof {
            assert(per == per_share(no_total(s), no_count(s)));
            assert(0 <= per <= no_total(s)) by (nonlinear_arith)
                requires
                    0 <= no_total(s),
                    0 <= no_count(s),
                    per == no_total(s) / (no_count(s) + 1),
            ;
        }
        out.push(Payout { to: p.proposer, amount: p.proposer_stake as u128 + per });
        let n = p.vote_data.len();
        for i in 0..n
            invariant
                n == s.len(),
                p.vote_data@ == s,
                per <= no_total(s),
                no_total(s) <= no_count(s) * (u64::MAX as int),
                no_count(s) * (u64::MAX as int) <= (usize::MAX as int) * (u64::MAX as int),
                out@ == seq![
                    Payout {
                        to: p.proposer,
                        amount: (p.proposer_stake + per_share(no_total(s), no_count(s))) as u128,
                    },
                ] + accepted_vote_payouts(s.take(i as int), per as int),
        {
            proof {
                assert(s.take(i + 1).drop_last() =~= s.take(i as int));
                assert(s.take(i + 1).last() == s[i as int]);
            }
            match p.vote_data[i].1 {
                Votes::Yes(a) => {
                    out.push(Payout { to: p.vote_data[i].0, amount: a as u128 + per });
                },
                Votes::No(_) => {},
            }
        }
        proof {
            assert(s.take(n as int) =~= s);
        }
        out
    } else {
        let n = p.vote_data.len();
        for i in 0..n
            invariant
                n == s.len(),
                p.vote_data@ == s,
                out@ == rejected_vote_refunds(s.take(i as int)),
        {
            proof {
                assert(s.take(i + 1).drop_last() =~= s.take(i as int));
                assert(s.take(i + 1).last() == s[i as int]);
            }
            match p.vote_data[i].1 {
                Votes::Yes(_) => {},
                Votes::No(a) => {
                    out.push(Payout { to: p.vote_data[i].0, amount: a as u128 });
                },
            }
        }
        proof {
            assert(s.take(n as int) =~= s);
        }
        out
    }
}

} // verus!

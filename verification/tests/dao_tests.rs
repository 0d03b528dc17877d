use nnsdao::dao::DaoService;
use nnsdao::dao::JoinDaoParams;
use nnsdao::dao::ProposalBody;
use nnsdao::dao::SettleSummary;
use nnsdao::dao::UserVoteArgs;
use nnsdao::dao::MIN_VOTE_BALANCE;
use nnsdao::error::DaoError;
use nnsdao::proposal::Payout;
use nnsdao::proposal::ProposalState;
use nnsdao::proposal::Votes;
use nnsdao::types::Principal;

fn profile(nick: &str) -> JoinDaoParams {
    JoinDaoParams {
        nickname: nick.to_string(),
        avatar: String::new(),
        intro: String::new(),
        social: Vec::new(),
    }
}

fn body(proposer: u64, end_time: u64) -> ProposalBody {
    ProposalBody {
        proposer: Principal { id: proposer },
        title: "t".to_string(),
        content: "c".to_string(),
        end_time,
        property: None,
    }
}

fn vote_args(id: u64, vote: Votes) -> UserVoteArgs {
    UserVoteArgs { principal: None, id, vote }
}

const BAL: u128 = 1_000_000_000;

/// Sets up a dao where the proposer (id 1) opened proposal 1 with the
/// given stake, and voters 2 and 3 are members.
fn dao_with_proposal(stake: u64, end_time: u64) -> DaoService {
    let mut dao = DaoService::default();
    dao.join(Principal { id: 1 }, profile("p"), 0).unwrap();
    dao.join(Principal { id: 2 }, profile("a"), 0).unwrap();
    dao.join(Principal { id: 3 }, profile("b"), 0).unwrap();
    let planned = dao.propose_plan(stake, BAL, BAL).unwrap();
    assert_eq!(planned, stake);
    dao.propose(body(1, end_time), stake, 0);
    dao
}

fn cast(dao: &mut DaoService, voter: u64, id: u64, vote: Votes) {
    let caller = Principal { id: voter };
    let amount = dao
        .validate_before_vote(caller, vote_args(id, vote), BAL, BAL)
        .unwrap();
    match vote {
        Votes::Yes(a) | Votes::No(a) => assert_eq!(amount, a),
    }
    dao.vote(caller, vote_args(id, vote)).unwrap();
}

#[test]
fn join_twice_fails_with_already_member() {
    let mut dao = DaoService::default();
    let m = dao.join(Principal { id: 9 }, profile("n"), 5).unwrap();
    assert_eq!(m.status_code, 1);
    assert_eq!(m.join_at, 5);
    let again = dao.join(Principal { id: 9 }, profile("n"), 6);
    assert_eq!(again.unwrap_err(), DaoError::AlreadyMember);
}

#[test]
fn quit_then_join_rejoins_deterministically() {
    let mut dao = DaoService::default();
    dao.join(Principal { id: 9 }, profile("old"), 5).unwrap();
    let quit = dao.quit(Principal { id: 9 }).unwrap();
    assert_eq!(quit.status_code, -1);
    assert_eq!(quit.nickname, "old");
    let rejoined = dao.join(Principal { id: 9 }, profile("new"), 7).unwrap();
    assert_eq!(rejoined.status_code, 1);
    assert_eq!(rejoined.nickname, "new");
    assert_eq!(rejoined.join_at, 7);
    assert_eq!(dao.member_list().unwrap().len(), 1);
}

#[test]
fn quit_without_join_fails() {
    let mut dao = DaoService::default();
    let r = dao.quit(Principal { id: 9 });
    assert_eq!(r.unwrap_err(), DaoError::NotMember);
}

#[test]
fn member_queries() {
    let mut dao = DaoService::default();
    dao.join(Principal { id: 1 }, profile("x"), 0).unwrap();
    assert_eq!(dao.is_member(Principal { id: 1 }).unwrap(), true);
    assert_eq!(
        dao.is_member(Principal { id: 2 }).unwrap_err(),
        DaoError::NotMember
    );
    let info = dao.user_info(Principal { id: 1 }).unwrap();
    assert_eq!(info.nickname, "x");
    assert_eq!(
        dao.user_info(Principal { id: 2 }).unwrap_err(),
        DaoError::NotMember
    );
    assert_eq!(dao.member_list().unwrap().len(), 1);
}

#[test]
fn propose_plan_checks_in_order() {
    let dao = DaoService::default();
    assert_eq!(
        dao.propose_plan(0, BAL, BAL).unwrap_err(),
        DaoError::InsufficientBalance
    );
    assert_eq!(
        dao.propose_plan(100, 99, BAL).unwrap_err(),
        DaoError::InsufficientBalance
    );
    assert_eq!(
        dao.propose_plan(100, BAL, 99).unwrap_err(),
        DaoError::InsufficientAllowance
    );
    assert_eq!(dao.propose_plan(100, BAL, BAL).unwrap(), 100);
}

#[test]
fn propose_assigns_fresh_ids_and_queues() {
    let mut dao = DaoService::default();
    let p1 = dao.propose(body(1, 10), 100, 3);
    let p2 = dao.propose(body(1, 20), 100, 4);
    assert_eq!(p1.id, 1);
    assert_eq!(p2.id, 2);
    assert_eq!(p1.proposer_stake, 100);
    assert_eq!(p1.created_at, 3);
    assert!(matches!(p1.proposal_state, ProposalState::Open));
    assert!(p1.vote_data.is_empty());
    assert_eq!(dao.pending_proposal, vec![1, 2]);
    assert_eq!(dao.proposal_list().len(), 2);
    assert_eq!(dao.get_proposal(2).unwrap().id, 2);
    assert_eq!(
        dao.get_proposal(3).unwrap_err(),
        DaoError::ProposalNotFound
    );
}

#[test]
fn validate_before_vote_checks_in_order() {
    let mut dao = dao_with_proposal(100, 10);
    let a = Principal { id: 2 };
    let outsider = Principal { id: 99 };
    let yes = Votes::Yes(50);
    assert_eq!(
        dao.validate_before_vote(outsider, vote_args(1, yes), BAL, BAL)
            .unwrap_err(),
        DaoError::NotMember
    );
    assert_eq!(
        dao.validate_before_vote(a, vote_args(7, yes), BAL, BAL)
            .unwrap_err(),
        DaoError::ProposalNotFound
    );
    assert_eq!(
        dao.validate_before_vote(Principal { id: 1 }, vote_args(1, yes), BAL, BAL)
            .unwrap_err(),
        DaoError::SelfVoteForbidden
    );
    let below_min = (MIN_VOTE_BALANCE - 1) as u128;
    assert_eq!(
        dao.validate_before_vote(a, vote_args(1, yes), below_min, BAL)
            .unwrap_err(),
        DaoError::InsufficientBalance
    );
    assert_eq!(
        dao.validate_before_vote(a, vote_args(1, Votes::Yes(u64::MAX)), BAL, BAL)
            .unwrap_err(),
        DaoError::InsufficientBalance
    );
    assert_eq!(
        dao.validate_before_vote(a, vote_args(1, yes), BAL, 49)
            .unwrap_err(),
        DaoError::InsufficientAllowance
    );
    assert_eq!(
        dao.validate_before_vote(a, vote_args(1, yes), BAL, BAL)
            .unwrap(),
        50
    );
    // after settlement the proposal is closed for validation too
    dao.check_proposal(11);
    assert_eq!(
        dao.validate_before_vote(a, vote_args(1, yes), BAL, BAL)
            .unwrap_err(),
        DaoError::VotingClosed
    );
}

#[test]
fn vote_commit_errors() {
    let mut dao = dao_with_proposal(100, 10);
    assert_eq!(
        dao.vote(Principal { id: 2 }, vote_args(9, Votes::Yes(1)))
            .unwrap_err(),
        DaoError::ProposalNotFound
    );
    assert_eq!(
        dao.vote(Principal { id: 1 }, vote_args(1, Votes::Yes(1)))
            .unwrap_err(),
        DaoError::SelfVoteForbidden
    );
}

#[test]
fn revote_overwrites_earlier_ballot() {
    let mut dao = dao_with_proposal(100, 10);
    let a = Principal { id: 2 };
    dao.vote(a, vote_args(1, Votes::Yes(50))).unwrap();
    dao.vote(a, vote_args(1, Votes::No(20))).unwrap();
    let p = dao.get_proposal(1).unwrap();
    assert_eq!(p.vote_data.len(), 1);
    assert_eq!(p.vote_data[0].0, a);
    assert!(matches!(p.vote_data[0].1, Votes::No(20)));
}

#[test]
fn settlement_accepted_pays_winners() {
    // proposer stakes 100, A votes Yes(50), B votes No(30); after expiry
    // the proposer gets 100 + 30/2 = 115, A gets 50 + 15 = 65, B nothing.
    let mut dao = dao_with_proposal(100, 10);
    cast(&mut dao, 2, 1, Votes::Yes(50));
    cast(&mut dao, 3, 1, Votes::No(30));
    let payouts = dao.check_proposal(11);
    assert_eq!(
        payouts,
        vec![
            Payout { to: Principal { id: 1 }, amount: 115 },
            Payout { to: Principal { id: 2 }, amount: 65 },
        ]
    );
    let p = dao.get_proposal(1).unwrap();
    assert!(matches!(p.proposal_state, ProposalState::Accepted));
    let log = dao.get_handled_proposal();
    assert_eq!(
        log,
        vec![(1, Ok(SettleSummary { yes_total: 50, no_total: 30 }))]
    );
    assert!(dao.pending_proposal.is_empty());
}

#[test]
fn settlement_zero_votes_rejects_and_forfeits_stake() {
    let mut dao = dao_with_proposal(100, 10);
    let payouts = dao.check_proposal(11);
    assert!(payouts.is_empty());
    let p = dao.get_proposal(1).unwrap();
    assert!(matches!(p.proposal_state, ProposalState::Rejected));
    let log = dao.get_handled_proposal();
    assert_eq!(
        log,
        vec![(1, Ok(SettleSummary { yes_total: 0, no_total: 0 }))]
    );
}

#[test]
fn settlement_rejected_refunds_no_voters_exactly() {
    let mut dao = dao_with_proposal(100, 10);
    cast(&mut dao, 2, 1, Votes::Yes(10));
    cast(&mut dao, 3, 1, Votes::No(30));
    let payouts = dao.check_proposal(11);
    assert_eq!(
        payouts,
        vec![Payout { to: Principal { id: 3 }, amount: 30 }]
    );
    let p = dao.get_proposal(1).unwrap();
    assert!(matches!(p.proposal_state, ProposalState::Rejected));
}

#[test]
fn vote_after_settlement_fails_with_voting_closed() {
    let mut dao = dao_with_proposal(100, 10);
    cast(&mut dao, 2, 1, Votes::Yes(50));
    dao.check_proposal(11);
    let r = dao.vote(Principal { id: 3 }, vote_args(1, Votes::No(5)));
    assert_eq!(r.unwrap_err(), DaoError::VotingClosed);
    // the terminal state never changes again
    let before = dao.get_proposal(1).unwrap().proposal_state;
    dao.pending_proposal.push(1);
    dao.check_proposal(999);
    assert_eq!(dao.get_proposal(1).unwrap().proposal_state, before);
}

#[test]
fn check_proposal_requeues_unexpired() {
    let mut dao = dao_with_proposal(100, 10);
    let payouts = dao.check_proposal(10);
    assert!(payouts.is_empty());
    assert_eq!(dao.pending_proposal, vec![1]);
    assert!(matches!(
        dao.get_proposal(1).unwrap().proposal_state,
        ProposalState::Open
    ));
}

#[test]
fn check_proposal_with_empty_queue_is_a_no_op() {
    let mut dao = DaoService::default();
    let payouts = dao.check_proposal(1);
    assert!(payouts.is_empty());
    assert!(dao.get_handled_proposal().is_empty());
}

#[test]
fn record_payout_failure_appends_to_log() {
    let mut dao = dao_with_proposal(100, 10);
    dao.check_proposal(11);
    dao.record_payout_failure(1, Principal { id: 2 }, 65);
    let log = dao.get_handled_proposal();
    assert_eq!(log.len(), 2);
    assert!(log[1].1.is_err());
    let failure = log[1].1.unwrap_err();
    assert_eq!(failure.to, Principal { id: 2 });
    assert_eq!(failure.amount, 65);
}

#[test]
fn update_dao_info_keeps_canister_id() {
    let mut dao = DaoService::default();
    dao.info.canister_id = "abc-def".to_string();
    let new_info = nnsdao::dao::DaoInfo {
        name: "n".to_string(),
        poster: "p".to_string(),
        avatar: "a".to_string(),
        tags: vec!["tag".to_string()],
        intro: "i".to_string(),
        canister_id: "ignored".to_string(),
        option: None,
    };
    let updated = dao.update_dao_info(new_info).unwrap();
    assert_eq!(updated.name, "n");
    assert_eq!(updated.canister_id, "abc-def");
    let read_back = dao.dao_info().unwrap();
    assert_eq!(read_back.name, "n");
    assert_eq!(read_back.tags, vec!["tag".to_string()]);
}

#[test]
fn error_messages_match_reasons() {
    assert_eq!(
        DaoError::VotingClosed.message(),
        "Voting has closed"
    );
    assert_eq!(
        DaoError::InsufficientBalance.message(),
        "Insufficient balance!"
    );
    assert_eq!(
        DaoError::TransferFailed("boom".to_string()).message(),
        "boom"
    );
    assert_eq!(DaoError::Unauthorized.message(), "no auth");
}

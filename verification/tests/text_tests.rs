use nnsdao::ext_client::CanisterExtClient;
use nnsdao::standard_ext::account_idf_equal;
use nnsdao::strutil::str_contains_str;
use nnsdao::strutil::u64_to_string;
use nnsdao::types::Principal;
use nnsdao::Data;

#[test]
fn decimal_rendering_exact_values() {
    assert_eq!(u64_to_string(0), "0");
    assert_eq!(u64_to_string(7), "7");
    assert_eq!(u64_to_string(100), "100");
    assert_eq!(u64_to_string(1234567890), "1234567890");
    assert_eq!(u64_to_string(u64::MAX), "18446744073709551615");
}

#[test]
fn account_identifiers_compare_case_insensitively() {
    let upper = "0A1B2C".to_string();
    let lower = "0a1b2c".to_string();
    let other = "0a1b2d".to_string();
    assert!(account_idf_equal(&upper, &lower));
    assert!(account_idf_equal(&upper, &upper));
    assert!(!account_idf_equal(&lower, &other));
}

#[test]
fn substring_search() {
    assert!(str_contains_str("hello world", "lo w"));
    assert!(str_contains_str("hello", ""));
    assert!(str_contains_str("hello", "hello"));
    assert!(!str_contains_str("hello", "hello!"));
    assert!(!str_contains_str("abc", "zz"));
}

#[test]
fn anonymous_identity_is_zero() {
    assert_eq!(Principal::anonymous(), Principal { id: 0 });
}

#[test]
fn ext_client_remembers_canister() {
    let client = CanisterExtClient::new("vgqnj-miaaa-aaaal-qaapa-cai".to_string());
    assert_eq!(client.id, "vgqnj-miaaa-aaaal-qaapa-cai");
}

#[test]
fn init_registers_owner_as_member_and_admin() {
    let owner = Principal { id: 77 };
    let data = Data::init(owner, 4);
    assert_eq!(data.owners.get_owners(), vec![owner]);
    assert!(data.owners.is_owner(owner).is_ok());
    assert!(data.owners.is_owner(Principal { id: 78 }).is_err());
    let member = data.dao.user_info(owner).unwrap();
    assert_eq!(member.nickname, "owner");
    assert_eq!(member.join_at, 4);
    assert!(data.run_heartbeat);
}

#[test]
fn heartbeat_is_rate_limited() {
    let mut data = Data::init(Principal { id: 1 }, 0);
    data.dao.propose(
        nnsdao::dao::ProposalBody {
            proposer: Principal { id: 1 },
            title: String::new(),
            content: String::new(),
            end_time: 10,
            property: None,
        },
        100,
        0,
    );
    // too soon after the last beat: nothing happens
    let payouts = data.heartbeat_step(1_000_000_000);
    assert!(payouts.is_empty());
    assert_eq!(data.heartbeat_last_beat, 0);
    assert_eq!(data.dao.pending_proposal, vec![1]);
    // past the gap: the scan runs and settles the expired proposal
    let payouts = data.heartbeat_step(6_000_000_000);
    assert!(payouts.is_empty());
    assert_eq!(data.heartbeat_last_beat, 6_000_000_000);
    assert!(data.dao.pending_proposal.is_empty());
}

use daofactory::strmap::StrMap;
use daofactory::voting::{
    check_event, is_value_pct, parse_supports, token_reply_amount, voting_method, Chain, Event,
    Execution, VoteError, VotingMethod, VotingState, PCT_BASE,
};

const HALF: u128 = PCT_BASE / 2;
const FIFTH: u128 = PCT_BASE / 5;

fn table<V>(pairs: Vec<(&str, V)>) -> StrMap<V> {
    let mut m = StrMap::new();
    for (k, v) in pairs {
        m.insert(k.to_string(), v);
    }
    m
}

fn token_chain(now: u64) -> Chain {
    Chain {
        now,
        height: 7,
        total_power: 0,
        validator_power: StrMap::new(),
        community_apps: table(vec![("token_app", "tok".to_string())]),
        token_supply: Some("1000".to_string()),
        token_balances: table(vec![("alice", "600".to_string()), ("bob", "300".to_string())]),
    }
}

fn validator_chain(now: u64, v1: u128, v2: u128) -> Chain {
    Chain {
        now,
        height: 9,
        total_power: 100,
        validator_power: table(vec![("v1", v1), ("v2", v2)]),
        community_apps: StrMap::new(),
        token_supply: None,
        token_balances: StrMap::new(),
    }
}

fn event(kind: &str, contract: &str, method: &str, params: &[&str]) -> Event {
    Event {
        event_type: kind.to_string(),
        contract: contract.to_string(),
        method: method.to_string(),
        params: params.iter().map(|p| p.to_string()).collect(),
        description: String::new(),
    }
}

fn token_state() -> VotingState {
    match VotingState::init_from_args(
        "community",
        &HALF.to_string(),
        &FIFTH.to_string(),
        "50",
        "false",
    ) {
        Ok(s) => s,
        Err(_) => panic!("init failed"),
    }
}

#[test]
fn voting_init_reads_the_documented_arguments() {
    let s = VotingState::init_from_args("community", "6000000000", "5000000000", "1290600000", "false")
        .ok()
        .unwrap();
    assert_eq!(s.params.support_required_pct, 6000000000);
    assert_eq!(s.params.min_accept_quorum_pct, 5000000000);
    assert_eq!(s.params.vote_open_time, 1290600000);
    assert!(!s.params.is_official);
}

#[test]
fn init_from_args_reads_the_rules() {
    let s = token_state();
    assert_eq!(s.params.acl_app, "");
    assert_eq!(s.params.community_app.as_deref(), Some("community"));
    assert_eq!(s.params.support_required_pct, HALF);
    assert_eq!(s.params.min_accept_quorum_pct, FIFTH);
    assert_eq!(s.params.vote_open_time, 50);
    assert!(!s.params.is_official);
    assert!(!s.params.has_token_address);
    assert!(s.votes.is_empty());
    assert!(matches!(
        VotingState::init_from_args("c", "1", "2", "3", "maybe"),
        Err(VoteError::InvalidIsOfficial)
    ));
    assert!(matches!(
        VotingState::init_from_args("c", "x", "2", "3", "true"),
        Err(VoteError::AbortInvalidNumber)
    ));
    assert!(matches!(
        VotingState::init_from_args("c", "1", "2", "-3", "true"),
        Err(VoteError::AbortInvalidNumber)
    ));
}

#[test]
fn a_claim_passes_and_is_executed_at_once() {
    let mut s = token_state();
    let chain = token_chain(100);
    let id = s.new_vote(&chain, &"alice".to_string(), true, Some(event("claim", "", "", &[])));
    assert!(id == Ok(1));
    let v = s.query_vote(1).ok().unwrap();
    assert_eq!(v.sponsor, "alice");
    assert_eq!(v.start_date, 100);
    assert_eq!(v.end_date, 150);
    assert_eq!(v.snapshot_block, 7);
    assert_eq!(v.voting_power, 1000);
    assert_eq!(v.yea, 600);
    assert_eq!(v.nay, 0);
    assert!(v.passed);
    assert!(v.executed);
}

#[test]
fn an_opposing_vote_is_added_to_nay() {
    let mut s = token_state();
    let chain = token_chain(100);
    let e = event("call_contract", "token_app", "mint", &["alice", "5"]);
    assert!(s.new_vote(&chain, &"alice".to_string(), false, Some(e)) == Ok(1));
    assert_eq!(s.votes[0].yea, 0);
    assert!(!s.votes[0].passed);
    assert!(s.cast_vote(&chain, 1, false, &"bob".to_string()) == Ok(()));
    let v = &s.votes[0];
    assert_eq!(v.yea, 0);
    assert_eq!(v.nay, 300);
    let bob = v.voters.get(&"bob".to_string()).unwrap();
    assert!(!bob.support);
    assert_eq!(bob.stake, 300);
    assert!(!v.passed);
    assert!(!v.executed);
    assert!(s.cast_vote(&chain, 1, true, &"bob".to_string()) == Ok(()));
    assert_eq!(s.votes[0].yea, 300);
    assert_eq!(s.votes[0].nay, 0);
    assert!(s.votes[0].passed);
}

#[test]
fn a_call_contract_vote_is_executed_by_its_sponsor() {
    let mut s = token_state();
    let chain = token_chain(100);
    let e = event("call_contract", "token_app", "mint", &["alice", "5"]);
    assert!(s.new_vote(&chain, &"alice".to_string(), true, Some(e)) == Ok(1));
    assert!(s.votes[0].passed);
    assert!(matches!(s.execute_event("1", 120, "bob"), Err(VoteError::SponsorMismatch)));
    assert!(matches!(s.execute_event("1", 151, "alice"), Err(VoteError::OutOfDate)));
    match s.execute_event("1", 120, "alice") {
        Ok(Execution::Call { index, contract, method, params }) => {
            assert_eq!(index, 0);
            assert_eq!(contract, "token_app");
            assert_eq!(method, "mint");
            assert_eq!(params, vec!["alice".to_string(), "5".to_string()]);
        },
        _ => panic!("expected a call"),
    }
    assert!(!s.votes[0].executed);
    assert!(s.finish_call(0, None) == Err(VoteError::CallReturnedNone));
    assert!(s.finish_call(0, Some("fail".to_string())) == Err(VoteError::CallRejected));
    assert!(!s.votes[0].executed);
    assert!(s.finish_call(0, Some("success".to_string())) == Ok(()));
    assert!(s.votes[0].executed);
    assert!(matches!(s.execute_event("1", 120, "alice"), Err(VoteError::AlreadyExecuted)));
}

#[test]
fn execute_refuses_unknown_and_unpassed_votes() {
    let mut s = token_state();
    let chain = token_chain(100);
    assert!(s.new_vote(&chain, &"alice".to_string(), false, Some(event("claim", "", "", &[]))).is_ok());
    assert!(matches!(s.execute_event("1", 100, "alice"), Err(VoteError::NotPassed)));
    assert!(matches!(s.execute_event("2", 100, "alice"), Err(VoteError::VoteNotExist)));
    assert!(matches!(s.execute_event("01", 100, "alice"), Err(VoteError::VoteNotExist)));
    assert!(matches!(s.execute_event("0", 100, "alice"), Err(VoteError::VoteNotExist)));
    assert!(matches!(s.execute_event("one", 100, "alice"), Err(VoteError::VoteNotExist)));
    assert_eq!(s.vote_index("1"), Some(0));
    assert_eq!(s.vote_index("+1"), None);
}

#[test]
fn a_community_event_updates_the_rules() {
    let mut s = token_state();
    let chain = token_chain(100);
    let e = event(
        "community",
        "",
        "update_community_voting_rule",
        &["-1", "300000000000000000", "77"],
    );
    assert!(s.new_vote(&chain, &"alice".to_string(), true, Some(e)) == Ok(1));
    assert!(s.votes[0].passed);
    assert!(!s.votes[0].executed);
    assert!(matches!(s.execute_event("1", 100, "anyone"), Ok(Execution::Done)));
    assert_eq!(s.params.support_required_pct, HALF);
    assert_eq!(s.params.min_accept_quorum_pct, 300000000000000000);
    assert_eq!(s.params.vote_open_time, 77);
    assert!(s.votes[0].executed);
    let list = s.query_public_params();
    assert_eq!(
        list,
        vec![
            ("vote_open_time".to_string(), "77".to_string()),
            ("min_accept_quorum_pct".to_string(), "300000000000000000".to_string()),
            ("support_required_pct".to_string(), HALF.to_string()),
        ]
    );
}

#[test]
fn events_are_checked_before_the_vote() {
    let chain = token_chain(100);
    let rule = |m: &str, p: &[&str]| event("community", "", m, p);
    assert!(check_event(&rule("update_community_voting_rule", &["1", "2", "3"]), false, true, &chain) == Ok(()));
    assert!(
        check_event(&rule("update_community_voting_rule", &["1", "2", "3"]), true, true, &chain)
            == Err(VoteError::OfficialCannotUpdate)
    );
    assert!(check_event(&rule("other", &["1", "2", "3"]), false, true, &chain) == Err(VoteError::InvalidEventMethod));
    assert!(
        check_event(&rule("update_community_voting_rule", &["1", "2"]), false, true, &chain)
            == Err(VoteError::InvalidParamsLength)
    );
    assert!(
        check_event(&rule("update_community_voting_rule", &["x", "2", "3"]), false, true, &chain)
            == Err(VoteError::InvalidSupportPct)
    );
    assert!(
        check_event(&rule("update_community_voting_rule", &["1", "y", "3"]), false, true, &chain)
            == Err(VoteError::InvalidMinRequiredPct)
    );
    assert!(
        check_event(&rule("update_community_voting_rule", &["1", "2", "z"]), false, true, &chain)
            == Err(VoteError::InvalidVoteOpenTime)
    );
    let call = |c: &str| event("call_contract", c, "m", &[]);
    assert!(check_event(&call("token_app"), false, true, &chain) == Ok(()));
    assert!(check_event(&call("token_app"), false, false, &chain) == Err(VoteError::CommunityNotSet));
    assert!(check_event(&call("nowhere"), false, true, &chain) == Err(VoteError::InvalidEventContract));
    assert!(check_event(&event("anything", "", "", &[]), true, false, &chain) == Ok(()));
}

#[test]
fn new_vote_refusals_leave_the_state_alone() {
    let mut s = token_state();
    let chain = token_chain(100);
    assert!(s.new_vote(&chain, &"alice".to_string(), true, None) == Err(VoteError::InvalidEvent));
    assert!(
        s.new_vote(&chain, &"carol".to_string(), true, Some(event("claim", "", "", &[])))
            == Err(VoteError::NoPower)
    );
    let mut empty = token_chain(100);
    empty.token_supply = Some("0".to_string());
    assert!(
        s.new_vote(&empty, &"alice".to_string(), true, Some(event("claim", "", "", &[])))
            == Err(VoteError::NoVotingPower)
    );
    let mut no_token = token_chain(100);
    no_token.community_apps = StrMap::new();
    assert!(
        s.new_vote(&no_token, &"alice".to_string(), true, Some(event("claim", "", "", &[])))
            == Err(VoteError::CallReturnedNone)
    );
    let late = token_chain(u64::MAX - 10);
    assert!(
        s.new_vote(&late, &"alice".to_string(), false, Some(event("claim", "", "", &[])))
            == Err(VoteError::AbortOverflow)
    );
    assert!(s.votes.is_empty());
}

#[test]
fn cast_vote_refusals() {
    let mut s = token_state();
    let chain = token_chain(100);
    assert!(s.cast_vote(&chain, 1, true, &"bob".to_string()) == Err(VoteError::VoteNotExisted));
    assert!(s.new_vote(&chain, &"alice".to_string(), false, Some(event("x", "", "", &[]))).is_ok());
    assert!(s.cast_vote(&chain, 0, true, &"bob".to_string()) == Err(VoteError::VoteNotExisted));
    assert!(s.cast_vote(&chain, 1, true, &"carol".to_string()) == Err(VoteError::NoPower));
    let closed = token_chain(150);
    assert!(s.cast_vote(&closed, 1, true, &"bob".to_string()) == Err(VoteError::VoteNotOpen));
    assert_eq!(s.votes[0].yea, 0);
}

#[test]
fn official_votes_follow_validator_power() {
    let mut s = VotingState::initialize("acl", "community", HALF, FIFTH, 50, true);
    let chain = validator_chain(10, 10, 30);
    assert!(s.new_vote(&chain, &"v1".to_string(), true, Some(event("claim", "", "", &[]))) == Ok(1));
    assert_eq!(s.votes[0].yea, 10);
    assert_eq!(s.votes[0].voting_power, 100);
    assert!(!s.votes[0].passed);
    let later = validator_chain(20, 50, 30);
    assert!(s.cast_vote(&later, 1, true, &"v2".to_string()) == Ok(()));
    let v = &s.votes[0];
    assert_eq!(v.yea, 80);
    assert_eq!(v.voters.get(&"v1".to_string()).unwrap().stake, 50);
    assert_eq!(v.voters.get(&"v2".to_string()).unwrap().stake, 30);
    assert!(v.passed);
    assert!(v.executed);
    assert!(s.cast_vote(&later, 1, true, &"nobody".to_string()) == Err(VoteError::NoPower));
}

#[test]
fn revoting_replaces_the_earlier_stake() {
    let mut s = VotingState::initialize("acl", "community", HALF, PCT_BASE, 50, true);
    let chain = validator_chain(10, 10, 30);
    assert!(s.new_vote(&chain, &"v1".to_string(), true, Some(event("x", "", "", &[]))) == Ok(1));
    assert!(s.cast_vote(&chain, 1, true, &"v1".to_string()) == Ok(()));
    assert_eq!(s.votes[0].yea, 10);
    assert_eq!(s.votes[0].voters.len(), 1);
}

#[test]
fn percentages_are_strict() {
    assert!(!is_value_pct(1, 2, HALF));
    assert!(is_value_pct(2, 3, HALF));
    assert!(!is_value_pct(0, 3, 0));
    assert!(!is_value_pct(3, 0, 0));
    assert!(is_value_pct(1, 1000, 0));
}

#[test]
fn token_answers_are_amounts() {
    assert!(token_reply_amount(None) == Ok(0));
    assert!(token_reply_amount(Some(&"42".to_string())) == Ok(42));
    assert!(token_reply_amount(Some(&"4x".to_string())) == Err(VoteError::AbortInvalidNumber));
}

#[test]
fn queries_and_method_names() {
    let s = token_state();
    let perms = s.default_permissions();
    assert_eq!(perms, vec![("voting.set_token_address".to_string(), "community".to_string())]);
    assert!(matches!(s.query_vote(1), Err(VoteError::VoteNotExist)));
    assert!(parse_supports("true") == Ok(true));
    assert!(parse_supports("false") == Ok(false));
    assert!(parse_supports("yes") == Err(VoteError::ErrorParams));
    assert!(matches!(voting_method("new_vote", true), VotingMethod::NewVote));
    assert!(matches!(voting_method("new_vote", false), VotingMethod::Unknown));
    assert!(matches!(voting_method("query_vote", false), VotingMethod::QueryVote));
    assert_eq!(VoteError::NotPassed.message(), "invalid vote_id, the vote not passed yet");
    assert!(VoteError::AbortMissingParam.aborts());
}

#[test]
fn rule_setters_change_one_setting() {
    let mut s = token_state();
    s.params.change_vote_open_time(9);
    s.params.change_min_accept_quorum(8);
    s.params.change_support_required_pct(7);
    assert_eq!(s.params.vote_open_time, 9);
    assert_eq!(s.params.min_accept_quorum_pct, 8);
    assert_eq!(s.params.support_required_pct, 7);
    assert_eq!(s.params.acl_app, "");
}

#[test]
fn a_short_rule_aborts_at_execution() {
    let mut s = token_state();
    let chain = token_chain(100);
    let e = event("community", "", "update_community_voting_rule", &["1", "2", "3"]);
    assert!(s.new_vote(&chain, &"alice".to_string(), true, Some(e)).is_ok());
    s.votes[0].event.params.pop();
    assert!(matches!(s.execute_event("1", 100, "x"), Err(VoteError::AbortMissingParam)));
    s.votes[0].event.params.push("q".to_string());
    assert!(matches!(s.execute_event("1", 100, "x"), Err(VoteError::AbortInvalidNumber)));
}

#[test]
fn a_passed_vote_takes_no_more_votes_and_does_not_pass_again() {
    let mut s = token_state();
    let chain = token_chain(100);
    let e = event("call_contract", "token_app", "mint", &["alice", "5"]);
    assert!(s.new_vote(&chain, &"alice".to_string(), true, Some(e)) == Ok(1));
    assert!(s.votes[0].passed);
    assert!(s.cast_vote(&chain, 1, false, &"bob".to_string()) == Err(VoteError::VoteNotOpen));
    assert_eq!(s.votes[0].yea, 600);
    assert!(s.votes[0].voters.get(&"bob".to_string()).is_none());
    assert!(s.votes[0].can_pass(&chain, false) == Ok(false));
    assert!(s.votes[0].passed);
    assert!(s.votes[0].is_vote_open(100) == false);
}

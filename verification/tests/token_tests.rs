use daofactory::text::u128_to_text;
use daofactory::token::{
    default_permissions, permission_action, token_method, TokenError, TokenLedger, TokenMethod,
    TokenReply, TokenRequest,
};

fn accounts(list: &[(&str, &str)]) -> Vec<(String, String)> {
    list.iter().map(|(a, b)| (a.to_string(), b.to_string())).collect()
}

fn text(r: Result<TokenReply, TokenError>) -> String {
    match r {
        Ok(TokenReply::Text(t)) => t,
        _ => panic!("expected a text reply"),
    }
}

fn ledger_with(list: &[(&str, &str)]) -> TokenLedger {
    let mut l = TokenLedger::new();
    assert!(l.set_system_contract("acl", "community").is_ok());
    let accs = accounts(list);
    assert!(l.init_ledger("Gold", "GLD", Some(&accs)).is_ok());
    l
}

#[test]
fn genesis_credits_accounts_and_sums_the_supply() {
    let l = ledger_with(&[("alice", "100"), ("bob", "250")]);
    assert_eq!(l.name, "Gold");
    assert_eq!(l.symbol, "GLD");
    assert_eq!(l.total, 350);
    assert_eq!(l.read_balance("alice"), 100);
    assert_eq!(l.read_balance("bob"), 250);
    assert_eq!(l.read_balance("carol"), 0);
    assert_eq!(l.holders.len(), 2);
}

#[test]
fn genesis_with_a_repeated_address_keeps_the_last_amount() {
    let l = ledger_with(&[("alice", "100"), ("alice", "7")]);
    assert_eq!(l.read_balance("alice"), 7);
    assert_eq!(l.total, 107);
}

#[test]
fn init_refuses_missing_accounts_and_bad_numbers() {
    let mut l = TokenLedger::new();
    assert!(l.init_ledger("Gold", "GLD", None) == Err(TokenError::InvalidAccount));
    assert_eq!(l.total, 0);
    let bad = accounts(&[("alice", "12x")]);
    assert!(l.init_ledger("Gold", "GLD", Some(&bad)) == Err(TokenError::AbortInvalidNumber));
    let max = u128::MAX.to_string();
    let big = accounts(&[("alice", max.as_str()), ("bob", "1")]);
    assert!(l.init_ledger("Gold", "GLD", Some(&big)) == Err(TokenError::AbortOverflow));
    let first = accounts(&[("alice", max.as_str()), ("bob", "1"), ("carol", "x")]);
    assert!(l.init_ledger("Gold", "GLD", Some(&first)) == Err(TokenError::AbortOverflow));
    let earlier = accounts(&[("alice", "x"), ("bob", max.as_str()), ("carol", "1")]);
    assert!(l.init_ledger("Gold", "GLD", Some(&earlier)) == Err(TokenError::AbortInvalidNumber));
    assert_eq!(l.total, 0);
    assert_eq!(l.read_balance("alice"), 0);
}

fn texts(list: &[&str]) -> Vec<String> {
    list.iter().map(|t| t.to_string()).collect()
}

#[test]
fn token_init_reads_the_documented_arguments() {
    let mut l = TokenLedger::new();
    assert!(l.set_system_contract("", "community").is_ok());
    let args = texts(&[
        "token",
        "TOK",
        "2",
        "0x9BA7dc2269895DF1004Ec75D8326644295508069",
        "80000",
        "0x3F43E75Aaba2c2fD6E227C10C6E7DC125A93DE3c",
        "90000",
    ]);
    assert!(l.init_from_args(&args) == Ok(()));
    assert_eq!(l.name, "token");
    assert_eq!(l.symbol, "TOK");
    assert_eq!(l.read_balance("0x9ba7dc2269895df1004ec75d8326644295508069"), 80000);
    assert_eq!(l.read_balance("0x3f43e75aaba2c2fd6e227c10c6e7dc125a93de3c"), 90000);
    assert_eq!(l.total, 170000);
    assert_eq!(l.community_app, "community");
}

#[test]
fn init_refuses_a_short_account_list() {
    let mut l = TokenLedger::new();
    assert!(l.init_from_args(&texts(&["token", "TOK", "2", "a", "1"])) == Err(TokenError::InvalidAccount));
    assert!(l.init_from_args(&texts(&["token", "TOK", "two"])) == Err(TokenError::InvalidAccount));
    assert!(l.init_from_args(&texts(&["token", "TOK"])) == Err(TokenError::InvalidAccount));
    assert!(l.init_from_args(&texts(&["token", "TOK", "1", "a", "b"])) == Err(TokenError::AbortInvalidNumber));
    assert!(l.init_from_args(&texts(&["token", "TOK", "0"])) == Ok(()));
    assert_eq!(l.total, 0);
}

#[test]
fn the_access_list_is_learnt_once() {
    let mut l = TokenLedger::new();
    assert!(l.acl_unknown());
    l.adopt_acl(None);
    assert!(l.acl_unknown());
    l.adopt_acl(Some("acl".to_string()));
    assert_eq!(l.acl_app, "acl");
    l.adopt_acl(Some("other".to_string()));
    assert_eq!(l.acl_app, "acl");
    assert!(!l.acl_unknown());
}

#[test]
fn system_contract_is_set_once() {
    let mut l = TokenLedger::new();
    assert!(l.set_system_contract("acl", "community") == Ok(()));
    assert_eq!(l.acl_app, "acl");
    assert_eq!(l.community_app, "community");
    assert!(l.set_system_contract("x", "y") == Err(TokenError::AlreadyInitialized));
    assert_eq!(l.acl_app, "acl");
}

#[test]
fn balances_are_read_in_lower_case() {
    let mut l = TokenLedger::new();
    l.mint("ABC", 5);
    assert_eq!(l.read_balance("abc"), 5);
    assert_eq!(l.read_balance("AbC"), 5);
    assert!(l.holders.contains_key(&"abc".to_string()));
}

#[test]
fn mint_then_burn_restores_balance_and_supply() {
    let mut l = ledger_with(&[("alice", "10")]);
    l.mint("alice", 32);
    assert_eq!(l.read_balance("alice"), 42);
    assert_eq!(l.total, 42);
    l.burn("alice", 32);
    assert_eq!(l.read_balance("alice"), 10);
    assert_eq!(l.total, 10);
}

#[test]
fn transfer_moves_the_amount_to_the_recipient() {
    let mut l = ledger_with(&[("alice", "100"), ("bob", "5")]);
    assert!(l.transfer("alice", "bob", 10) == Ok(()));
    assert_eq!(l.read_balance("alice"), 90);
    assert_eq!(l.read_balance("bob"), 15);
    assert_eq!(l.total, 105);
}

#[test]
fn transfer_to_a_new_address_adds_a_holder() {
    let mut l = ledger_with(&[("alice", "100")]);
    assert!(l.transfer("alice", "Carol", 10) == Ok(()));
    assert_eq!(l.read_balance("alice"), 90);
    assert_eq!(l.read_balance("carol"), 10);
    assert!(l.holders.contains_key(&"carol".to_string()));
}

#[test]
fn self_transfer_keeps_the_balance() {
    let mut l = ledger_with(&[("alice", "100")]);
    assert!(l.transfer("Alice", "alice", 30) == Ok(()));
    assert_eq!(l.read_balance("alice"), 100);
}

#[test]
fn transfer_beyond_the_balance_is_refused() {
    let mut l = ledger_with(&[("alice", "3")]);
    assert!(l.transfer("alice", "bob", 4) == Err(TokenError::InsufficientBalance));
    assert_eq!(l.read_balance("alice"), 3);
    assert!(!l.holders.contains_key(&"bob".to_string()));
}

#[test]
fn invoke_answers_queries() {
    let mut l = ledger_with(&[("alice", "100"), ("bob", "250")]);
    let r = l.invoke(TokenRequest::Balance { addr: "ALICE".to_string() }, Ok(()));
    assert_eq!(text(r), "100");
    let r = l.invoke(TokenRequest::TotalSupply, Ok(()));
    assert_eq!(text(r), "350");
    let r = l.invoke(TokenRequest::CanMigrate, Ok(()));
    assert_eq!(text(r), "true");
    match l.invoke(TokenRequest::HolderList, Ok(())) {
        Ok(TokenReply::Holders(hs)) => assert_eq!(hs, vec!["alice".to_string(), "bob".to_string()]),
        _ => panic!("expected the holders"),
    }
    assert!(matches!(l.invoke(TokenRequest::Unknown, Ok(())), Err(TokenError::MethodNotFound)));
}

#[test]
fn invoke_mint_burn_transfer() {
    let mut l = ledger_with(&[("alice", "100")]);
    let r = l.invoke(
        TokenRequest::Mint { rec: "bob".to_string(), amount: "20".to_string() },
        Ok(()),
    );
    assert_eq!(text(r), "success");
    assert_eq!(l.read_balance("bob"), 20);
    assert_eq!(l.total, 120);
    let r = l.invoke(
        TokenRequest::Burn { rec: "bob".to_string(), amount: "5".to_string() },
        Ok(()),
    );
    assert_eq!(text(r), "success");
    assert_eq!(l.read_balance("bob"), 15);
    assert_eq!(l.total, 115);
    let r = l.invoke(
        TokenRequest::Transfer {
            from: "alice".to_string(),
            to: "bob".to_string(),
            amount: "50".to_string(),
        },
        Ok(()),
    );
    assert_eq!(text(r), "success");
    assert_eq!(l.read_balance("alice"), 50);
    assert_eq!(l.read_balance("bob"), 65);
    assert_eq!(l.total, 115);
}

#[test]
fn invoke_refusals_leave_the_ledger_alone() {
    let mut l = ledger_with(&[("alice", "100")]);
    let req = || TokenRequest::Mint { rec: "bob".to_string(), amount: "1".to_string() };
    assert!(matches!(l.invoke(req(), Err(TokenError::NoPermission)), Err(TokenError::NoPermission)));
    let r = l.invoke(
        TokenRequest::Mint { rec: "bob".to_string(), amount: "one".to_string() },
        Ok(()),
    );
    assert!(matches!(r, Err(TokenError::AbortInvalidNumber)));
    let r = l.invoke(
        TokenRequest::Burn { rec: "alice".to_string(), amount: "101".to_string() },
        Ok(()),
    );
    assert!(matches!(r, Err(TokenError::AbortOverflow)));
    let r = l.invoke(
        TokenRequest::Mint { rec: "alice".to_string(), amount: u128::MAX.to_string() },
        Ok(()),
    );
    assert!(matches!(r, Err(TokenError::AbortOverflow)));
    let r = l.invoke(
        TokenRequest::Transfer {
            from: "alice".to_string(),
            to: "bob".to_string(),
            amount: "101".to_string(),
        },
        Ok(()),
    );
    assert!(matches!(r, Err(TokenError::InsufficientBalance)));
    assert_eq!(l.read_balance("alice"), 100);
    assert_eq!(l.read_balance("bob"), 0);
    assert_eq!(l.total, 100);
}

#[test]
fn permission_reply_decisions() {
    let mut l = TokenLedger::new();
    assert!(l.permission_reply(Some("true".to_string())) == Err(TokenError::AclMissing));
    assert!(l.set_system_contract("acl", "community").is_ok());
    assert!(l.permission_reply(Some("true".to_string())) == Ok(()));
    assert!(l.permission_reply(Some("false".to_string())) == Err(TokenError::NoPermission));
    assert!(l.permission_reply(None) == Err(TokenError::CallFailed));
}

#[test]
fn default_permissions_name_the_vote_app() {
    assert!(default_permissions(None, "any") == Err(TokenError::VoteAppLookupFailed));
    let list = default_permissions(Some("vote".to_string()), "any").ok().unwrap();
    assert_eq!(
        list,
        vec![
            ("token.mint".to_string(), "vote".to_string()),
            ("token.burn".to_string(), "vote".to_string()),
            ("token.transfer".to_string(), "any".to_string()),
        ]
    );
}

#[test]
fn methods_and_actions() {
    assert!(matches!(token_method("mint"), TokenMethod::Mint));
    assert!(matches!(token_method("totalSupply"), TokenMethod::TotalSupply));
    assert!(matches!(token_method("call_demo_readDB"), TokenMethod::CallDemoReadDb));
    assert!(matches!(token_method("Mint"), TokenMethod::Unknown));
    assert_eq!(permission_action("transfer"), "token.transfer");
}

#[test]
fn error_messages() {
    assert_eq!(TokenError::InsufficientBalance.message(), "Insufficient from balance");
    assert_eq!(TokenError::MethodNotFound.message(), "invoke method not found");
    assert!(TokenError::AbortOverflow.aborts());
    assert!(!TokenError::NoPermission.aborts());
}

#[test]
fn balance_text_reads_back() {
    let mut l = TokenLedger::new();
    l.mint("alice", 1234567890123);
    let r = l.invoke(TokenRequest::Balance { addr: "alice".to_string() }, Ok(()));
    assert_eq!(text(r), u128_to_text(1234567890123));
}

#[test]
fn genesis_sets_the_supply_to_the_sum_of_the_accounts() {
    let mut l = TokenLedger::new();
    l.mint("dave", 7);
    assert_eq!(l.total, 7);
    let accs = accounts(&[("alice", "100"), ("bob", "250")]);
    assert!(l.init_ledger("Gold", "GLD", Some(&accs)) == Ok(()));
    assert_eq!(l.total, 350);
    assert_eq!(l.read_balance("dave"), 7);
}

use daofactory::community::{
    community_method, default_permission, permission_outcome, query_method, query_reply,
    AppsRecord, Community, CommunityError, CommunityMethod, QueryKind,
};
use daofactory::dao::{
    create_dao, init_reply, installed_apps, next_install, next_permission_call, permission_calls,
    permission_reply, AllContracts, ContractArgs, DaoError, Step,
};
use daofactory::strmap::StrMap;

fn app(name: &str, args: &[&str]) -> ContractArgs {
    ContractArgs {
        app_name: name.to_string(),
        init_args: args.iter().map(|a| a.to_string()).collect(),
    }
}

fn refused_text(e: CommunityError) -> String {
    match e {
        CommunityError::Refused(t) => t,
        CommunityError::AbortUnreadableApps => panic!("expected a refusal"),
    }
}

#[test]
fn all_contracts_lists_the_base_apps_and_their_permissions() {
    let all = AllContracts::new();
    assert_eq!(all.default_contracts.len(), 4);
    for name in ["acl_app", "voting_app", "token_app", "finance_app"] {
        assert_eq!(all.default_contracts.get(&name.to_string()).map(|s| s.as_str()), Some(""));
    }
    assert_eq!(all.default_permissions.len(), 2);
    let acl = all.default_permissions.get(&"acl_app".to_string()).unwrap();
    assert_eq!(acl.len(), 1);
    assert_eq!(acl[0].who, "community_app");
    assert_eq!(acl[0].what, "acl_app");
    assert_eq!(acl[0].action, "acl.create_per");
    assert_eq!(acl[0].manager, "community_app");
    let token = all.default_permissions.get(&"token_app".to_string()).unwrap();
    assert_eq!(token.len(), 2);
    assert_eq!(token[0].action, "token.mint");
    assert_eq!(token[1].action, "token.burn");
    for p in token.iter() {
        assert_eq!(p.who, "voting_app");
        assert_eq!(p.what, "token_app");
        assert_eq!(p.manager, "voting_app");
    }
    assert!(all.default_permissions.get(&"voting_app".to_string()).is_none());
}

#[test]
fn create_dao_installs_the_acl_first_then_each_app() {
    let apps = vec![
        app("voting_app", &["6000000000", "5000000000", "1290600000", "false"]),
        app("token_app", &["token", "TOK", "2"]),
    ];
    let plan = create_dao("community", Some(&apps));
    assert!(plan.failure.is_none());
    assert_eq!(plan.installs.len(), 3);
    assert_eq!(plan.installs[0].code_hash, "");
    assert_eq!(plan.installs[0].init_args, vec!["community".to_string()]);
    assert_eq!(plan.installs[1].code_hash, "");
    assert_eq!(plan.installs[1].init_args.len(), 4);
    assert_eq!(plan.installs[2].code_hash, "");
    assert_eq!(plan.installs[2].init_args[1], "TOK");
}

#[test]
fn create_dao_stops_at_an_app_with_no_code_hash() {
    let apps = vec![app("voting_app", &[]), app("custom_app", &[]), app("token_app", &[])];
    let plan = create_dao("community", Some(&apps));
    assert_eq!(plan.installs.len(), 2);
    assert!(plan.failure == Some(DaoError::AppNotDefined));
    assert_eq!(DaoError::AppNotDefined.message(), "the app not defined");
}

#[test]
fn create_dao_with_unreadable_apps_fails_after_the_acl() {
    let plan = create_dao("community", None);
    assert_eq!(plan.installs.len(), 1);
    assert!(plan.failure == Some(DaoError::InvalidAppsArgs));
    assert_eq!(DaoError::InvalidAppsArgs.message(), "invalid apps args");
}

#[test]
fn replies_are_judged() {
    assert!(init_reply(Some(&"Success".to_string())) == Ok(()));
    assert!(init_reply(Some(&"success".to_string())) == Ok(()));
    assert!(init_reply(Some(&"SUCCESS".to_string())) == Err(DaoError::InitRejected));
    assert!(permission_reply(Some(Some(&"success".to_string()))) == Ok(()));
    assert!(init_reply(None) == Err(DaoError::CallReturnedNone));
    assert!(permission_reply(Some(Some(&"Success".to_string()))) == Ok(()));
    assert!(permission_reply(Some(Some(&"no".to_string()))) == Err(DaoError::PermissionFailed));
    assert!(permission_reply(Some(None)) == Err(DaoError::PermissionReplyUnreadable));
    assert!(permission_reply(None) == Err(DaoError::PermissionNoResponse));
}

#[test]
fn installed_apps_names_every_address() {
    let apps = vec![app("voting_app", &[]), app("token_app", &[])];
    let addrs = vec!["0xv".to_string(), "0xt".to_string()];
    let m = installed_apps("0xc", "0xa", &apps, &addrs);
    assert_eq!(m.len(), 4);
    assert_eq!(m.get(&"community_app".to_string()).unwrap(), "0xc");
    assert_eq!(m.get(&"acl_app".to_string()).unwrap(), "0xa");
    assert_eq!(m.get(&"voting_app".to_string()).unwrap(), "0xv");
    assert_eq!(m.get(&"token_app".to_string()).unwrap(), "0xt");
}

#[test]
fn token_permissions_resolve_to_addresses() {
    let all = AllContracts::new();
    let apps = vec![app("token_app", &[])];
    let mut installed = StrMap::new();
    installed.insert("community_app".to_string(), "0xc".to_string());
    installed.insert("acl_app".to_string(), "0xa".to_string());
    installed.insert("voting_app".to_string(), "0xv".to_string());
    installed.insert("token_app".to_string(), "0xt".to_string());
    let plan = permission_calls(&all, &installed, &apps);
    assert!(plan.failure.is_none());
    assert_eq!(plan.calls.len(), 3);
    assert_eq!(plan.calls[0].who, "0xc");
    assert_eq!(plan.calls[0].what, "0xa");
    assert_eq!(plan.calls[0].action, "acl.create_per");
    assert_eq!(plan.calls[0].manager, "0xc");
    assert_eq!(plan.calls[1].who, "0xv");
    assert_eq!(plan.calls[1].what, "0xt");
    assert_eq!(plan.calls[1].action, "token.mint");
    assert_eq!(plan.calls[1].manager, "0xv");
    assert_eq!(plan.calls[2].action, "token.burn");
}

#[test]
fn the_access_list_permission_is_granted_with_no_apps() {
    let all = AllContracts::new();
    let apps: Vec<ContractArgs> = vec![];
    let installed = installed_apps("0xc", "0xa", &apps, &vec![]);
    let plan = permission_calls(&all, &installed, &apps);
    assert!(plan.failure.is_none());
    assert_eq!(plan.calls.len(), 1);
    assert_eq!(plan.calls[0].who, "0xc");
    assert_eq!(plan.calls[0].what, "0xa");
    assert_eq!(plan.calls[0].action, "acl.create_per");
    assert_eq!(plan.calls[0].manager, "0xc");
}

#[test]
fn a_permission_for_an_app_not_installed_stops_the_plan() {
    let all = AllContracts::new();
    let apps = vec![app("token_app", &[])];
    let mut installed = StrMap::new();
    installed.insert("token_app".to_string(), "0xt".to_string());
    let plan = permission_calls(&all, &installed, &apps);
    assert!(plan.calls.is_empty());
    assert!(plan.failure == Some(DaoError::AppNotInstalled));
}

#[test]
fn an_app_without_listed_permissions_grants_none() {
    let all = AllContracts::new();
    let apps = vec![app("token_app", &[]), app("voting_app", &[])];
    let addrs = vec!["0xt".to_string(), "0xv".to_string()];
    let installed = installed_apps("0xc", "0xa", &apps, &addrs);
    let plan = permission_calls(&all, &installed, &apps);
    assert_eq!(plan.calls.len(), 3);
    assert!(plan.failure.is_none());
}

#[test]
fn install_steps_stop_at_the_first_refusal() {
    let apps = vec![app("voting_app", &[]), app("token_app", &[])];
    let plan = create_dao("0xc", Some(&apps));
    let ok = || Some("Success".to_string());
    assert!(matches!(next_install(&plan, &vec![]), Step::Make(0)));
    assert!(matches!(next_install(&plan, &vec![ok()]), Step::Make(1)));
    assert!(matches!(next_install(&plan, &vec![ok(), Some("success".to_string())]), Step::Make(2)));
    assert!(matches!(
        next_install(&plan, &vec![ok(), Some("no".to_string())]),
        Step::Stop(DaoError::InitRejected)
    ));
    assert!(matches!(next_install(&plan, &vec![None, ok()]), Step::Stop(DaoError::CallReturnedNone)));
    assert!(matches!(next_install(&plan, &vec![ok(), ok(), ok()]), Step::Done));
    let broken = create_dao("0xc", None);
    assert!(matches!(next_install(&broken, &vec![ok()]), Step::Stop(DaoError::InvalidAppsArgs)));
}

#[test]
fn permission_steps_stop_at_the_first_refusal() {
    let all = AllContracts::new();
    let none: Vec<ContractArgs> = vec![];
    let installed = installed_apps("0xc", "0xa", &none, &vec![]);
    let plan = permission_calls(&all, &installed, &none);
    assert_eq!(plan.calls.len(), 1);
    let apps = vec![app("token_app", &[])];
    let ok = || Some(Some("success".to_string()));
    assert!(matches!(next_permission_call(&plan, &vec![]), Step::Make(0)));
    assert!(matches!(next_permission_call(&plan, &vec![ok()]), Step::Done));
    assert!(matches!(next_permission_call(&plan, &vec![Some(None)]), Step::Stop(DaoError::PermissionReplyUnreadable)));
    let mut with_voting = StrMap::new();
    with_voting.insert("community_app".to_string(), "0xc".to_string());
    with_voting.insert("acl_app".to_string(), "0xa".to_string());
    with_voting.insert("token_app".to_string(), "0xt".to_string());
    let partial = permission_calls(&all, &with_voting, &apps);
    assert_eq!(partial.calls.len(), 1);
    assert!(partial.failure == Some(DaoError::AppNotInstalled));
    assert!(matches!(next_permission_call(&partial, &vec![ok()]), Step::Stop(DaoError::AppNotInstalled)));
}

#[test]
fn community_looks_apps_up() {
    let mut c = Community::new();
    assert!(c.get_apps().is_none());
    assert_eq!(c.get_app_address("token_app"), Err("token_appnot existed".to_string()));
    let mut m = StrMap::new();
    m.insert("token_app".to_string(), "0xt".to_string());
    c.install(m);
    assert!(c.get_apps().is_some());
    assert_eq!(c.get_app_address("token_app"), Ok("0xt".to_string()));
    assert_eq!(c.get_app_address("voting_app"), Err("voting_appnot existed".to_string()));
    assert_eq!(c.query_target(&QueryKind::Balances).ok(), Some("0xt".to_string()));
    let e = c.query_target(&QueryKind::Votes).err().unwrap();
    assert_eq!(refused_text(e), "voting_appnot existed");
    let broken = Community { apps: AppsRecord::Unreadable };
    assert_eq!(broken.get_app_address("token_app"), Err("parse to hash map failed".to_string()));
}

#[test]
fn added_apps_are_found_and_removed_apps_are_not() {
    let mut c = Community::new();
    assert_eq!(refused_text(c.remove_app("x").err().unwrap()), "no apps yet");
    assert!(c.add_app("finance_app", "0xf").is_ok());
    assert_eq!(c.get_app_address("finance_app"), Ok("0xf".to_string()));
    assert!(c.add_app("finance_app", "0xg").is_ok());
    assert_eq!(c.get_app_address("finance_app"), Ok("0xg".to_string()));
    assert!(c.remove_app("finance_app").is_ok());
    assert_eq!(c.get_app_address("finance_app"), Err("finance_appnot existed".to_string()));
    let mut broken = Community { apps: AppsRecord::Unreadable };
    assert!(matches!(broken.add_app("a", "b"), Err(CommunityError::AbortUnreadableApps)));
    assert!(matches!(broken.remove_app("a"), Err(CommunityError::AbortUnreadableApps)));
}

#[test]
fn queries_are_forwarded() {
    assert_eq!(query_method(&QueryKind::Balances), "query_balances");
    assert_eq!(query_method(&QueryKind::Permissions), "query_permissions");
    assert_eq!(query_reply(&QueryKind::Votes, Some(vec![1, 2])).ok(), Some(vec![1u8, 2]));
    let e = query_reply(&QueryKind::Votes, None).err().unwrap();
    assert_eq!(refused_text(e), "query votes failed,call voting contract error, return none");
}

#[test]
fn permission_outcomes() {
    let found: Result<String, String> = Ok("0xa".to_string());
    assert!(permission_outcome(&found, Some(Some("true".to_string()))).is_ok());
    let e = permission_outcome(&found, Some(Some("false".to_string()))).err().unwrap();
    assert_eq!(refused_text(e), "call acl contract error, you have no permission");
    let e = permission_outcome(&found, Some(None)).err().unwrap();
    assert_eq!(refused_text(e), "call acl contract error, failed to parse response of has permission");
    let e = permission_outcome(&found, None).err().unwrap();
    assert_eq!(refused_text(e), "call contract error, no response");
    let missing: Result<String, String> = Err("acl_appnot existed".to_string());
    let e = permission_outcome(&missing, Some(Some("true".to_string()))).err().unwrap();
    assert_eq!(refused_text(e), "acl_appnot existed");
}

#[test]
fn community_permissions_and_methods() {
    assert_eq!(
        default_permission("0xc"),
        vec![("community.manage".to_string(), "0xc".to_string())]
    );
    assert!(matches!(community_method("add_app", true), CommunityMethod::AddApp));
    assert!(matches!(community_method("add_app", false), CommunityMethod::Unknown));
    assert!(matches!(community_method("query_app", false), CommunityMethod::QueryApp));
}

#[test]
fn the_documented_example_makes_the_dao() {
    let apps = vec![
        app("voting_app", &["6000000000", "5000000000", "1290600000", "false"]),
        app(
            "token_app",
            &[
                "token",
                "TOK",
                "2",
                "0x9BA7dc2269895DF1004Ec75D8326644295508069",
                "80000",
                "0x3F43E75Aaba2c2fD6E227C10C6E7DC125A93DE3c",
                "90000",
            ],
        ),
    ];
    let plan = create_dao("0xc", Some(&apps));
    assert_eq!(plan.installs.len(), 3);
    assert!(plan.failure.is_none());
    let addrs = vec!["0xv".to_string(), "0xt".to_string()];
    let installed = installed_apps("0xc", "0xa", &apps, &addrs);
    assert_eq!(installed.len(), 4);
    let perms = permission_calls(&AllContracts::new(), &installed, &apps);
    assert!(perms.failure.is_none());
    assert_eq!(perms.calls.len(), 3);
    assert_eq!(perms.calls[1].who, "0xv");
    assert_eq!(perms.calls[1].what, "0xt");
    assert_eq!(perms.calls[1].action, "token.mint");
    assert_eq!(perms.calls[2].action, "token.burn");
}

#[test]
fn the_installed_table_keeps_the_last_address_of_each_name() {
    let apps = vec![app("voting_app", &[]), app("token_app", &[]), app("voting_app", &[])];
    let addrs = vec!["0xv1".to_string(), "0xt".to_string(), "0xv2".to_string()];
    let m = installed_apps("0xc", "0xa", &apps, &addrs);
    assert_eq!(m.len(), 4);
    assert_eq!(m.get(&"voting_app".to_string()).unwrap(), "0xv2");
    assert_eq!(m.get(&"token_app".to_string()).unwrap(), "0xt");
    assert_eq!(m.get(&"community_app".to_string()).unwrap(), "0xc");
    assert_eq!(m.get(&"acl_app".to_string()).unwrap(), "0xa");
}

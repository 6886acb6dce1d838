use daofactory::acl::{
    acl_method, action_hash, default_permissions, permission_hash, AclEnv, AclError, AclMethod,
    AclReply, AclRequest, AclState, ACTION_PERM_CREATE,
};
use sha2::{Digest, Sha256};

fn lossy_digest(text: &str) -> String {
    let d = Sha256::digest(text.as_bytes());
    String::from_utf8_lossy(&d[..]).into_owned()
}

fn env(caller: &str) -> AclEnv {
    AclEnv {
        contract: "acl".to_string(),
        caller: caller.to_string(),
        any_entity: "any".to_string(),
    }
}

fn reply_text(r: Result<AclReply, AclError>) -> String {
    match r {
        Ok(AclReply::Text(t)) => t,
        _ => panic!("expected text"),
    }
}

fn ask(state: &mut AclState, who: &str, what: &str, action: &str) -> String {
    reply_text(state.invoke(
        &env("anyone"),
        AclRequest::HasPermission {
            who: who.to_string(),
            what: what.to_string(),
            action: action.to_string(),
        },
    ))
}

#[test]
fn keys_are_digests_of_the_prefixed_text() {
    assert_eq!(permission_hash("a", "b", "c"), lossy_digest("permissionsabc"));
    assert_eq!(action_hash("b", "c"), lossy_digest("actionsbc"));
    assert_ne!(permission_hash("a", "b", "c"), "permissionsabc");
    assert_ne!(permission_hash("a", "b", "c"), permission_hash("a", "b", "d"));
}

#[test]
fn init_lets_the_community_create_permissions() {
    let mut s = AclState::new();
    s.init("community", "acl");
    assert_eq!(s.community.as_deref(), Some("community"));
    assert!(s.has_permission("community", "acl", ACTION_PERM_CREATE, "any"));
    assert!(!s.has_permission("stranger", "acl", ACTION_PERM_CREATE, "any"));
}

#[test]
fn create_then_grant_then_revoke() {
    let mut s = AclState::new();
    s.init("community", "acl");
    let created = s.invoke(
        &env("community"),
        AclRequest::CreatePermission {
            who: "voting".to_string(),
            what: "token".to_string(),
            action: "token.mint".to_string(),
            manager: "voting".to_string(),
        },
    );
    assert_eq!(reply_text(created), "success");
    assert_eq!(ask(&mut s, "voting", "token", "token.mint"), "true");
    assert!(s.is_permission_manager("voting", "token", "token.mint"));

    // only the manager grants
    let refused = s.invoke(
        &env("stranger"),
        AclRequest::GrantPermission {
            who: "alice".to_string(),
            what: "token".to_string(),
            action: "token.mint".to_string(),
        },
    );
    assert!(matches!(refused, Err(AclError::NotManagerToGrant)));
    assert_eq!(ask(&mut s, "alice", "token", "token.mint"), "false");

    let granted = s.invoke(
        &env("voting"),
        AclRequest::GrantPermission {
            who: "alice".to_string(),
            what: "token".to_string(),
            action: "token.mint".to_string(),
        },
    );
    assert!(matches!(granted, Ok(AclReply::Nothing)));
    assert_eq!(ask(&mut s, "alice", "token", "token.mint"), "true");

    let revoked = s.invoke(
        &env("voting"),
        AclRequest::RevokePermission {
            who: "alice".to_string(),
            what: "token".to_string(),
            action: "token.mint".to_string(),
        },
    );
    assert!(matches!(revoked, Ok(AclReply::Nothing)));
    assert_eq!(ask(&mut s, "alice", "token", "token.mint"), "false");

    let again = s.invoke(
        &env("voting"),
        AclRequest::RevokePermission {
            who: "alice".to_string(),
            what: "token".to_string(),
            action: "token.mint".to_string(),
        },
    );
    assert!(matches!(again, Err(AclError::PermissionNotExist)));
    assert_eq!(AclError::PermissionNotExist.message(), "permission not exist");
}

#[test]
fn create_needs_the_create_permission() {
    let mut s = AclState::new();
    s.init("community", "acl");
    let r = s.invoke(
        &env("stranger"),
        AclRequest::CreatePermission {
            who: "x".to_string(),
            what: "y".to_string(),
            action: "z".to_string(),
            manager: "x".to_string(),
        },
    );
    assert!(matches!(r, Err(AclError::NoCreatePermission)));
    assert_eq!(
        AclError::NoCreatePermission.message(),
        "you don't have permission to create"
    );
    assert!(!s.has_permission("x", "y", "z", "any"));
}

#[test]
fn any_entity_permission_covers_everyone() {
    let mut s = AclState::new();
    s.set_permission("any", "token", "token.transfer");
    assert_eq!(ask(&mut s, "whoever", "token", "token.transfer"), "true");
    assert_eq!(ask(&mut s, "whoever", "token", "token.mint"), "false");
}

#[test]
fn manager_can_be_moved_and_deleted() {
    let mut s = AclState::new();
    s.set_permission_manager("token", "token.burn", "voting");
    let moved = s.invoke(
        &env("voting"),
        AclRequest::SetPermissionManager {
            what: "token".to_string(),
            action: "token.burn".to_string(),
            manager: "treasury".to_string(),
        },
    );
    assert!(moved.is_ok());
    assert_eq!(s.get_permission_manager("token", "token.burn").as_deref(), Some("treasury"));
    assert!(!s.is_permission_manager("voting", "token", "token.burn"));

    let refused = s.invoke(
        &env("voting"),
        AclRequest::DeletePermissionManager {
            what: "token".to_string(),
            action: "token.burn".to_string(),
        },
    );
    assert!(matches!(refused, Err(AclError::NotManagerToDeleteManager)));

    let deleted = s.invoke(
        &env("treasury"),
        AclRequest::DeletePermissionManager {
            what: "token".to_string(),
            action: "token.burn".to_string(),
        },
    );
    assert!(deleted.is_ok());
    assert_eq!(s.get_permission_manager("token", "token.burn"), None);
}

#[test]
fn permission_list_grants_each_action() {
    let mut s = AclState::new();
    s.set_permission_list("bob", "app", &vec!["a".to_string(), "b".to_string()]);
    assert!(s.has_permission("bob", "app", "a", "any"));
    assert!(s.has_permission("bob", "app", "b", "any"));
    assert!(!s.has_permission("bob", "app", "c", "any"));
    assert_eq!(s.permissions.len(), 2);
}

#[test]
fn default_permissions_name_the_list_itself() {
    let list = default_permissions("acl-address");
    assert_eq!(list, vec![("acl.createperm".to_string(), "acl-address".to_string())]);
    let mut s = AclState::new();
    match s.invoke(&env("x"), AclRequest::DefaultPermissions) {
        Ok(AclReply::Permissions(l)) => assert_eq!(l[0].1, "acl"),
        _ => panic!("expected permissions"),
    }
}

#[test]
fn dispatch_by_method_name() {
    assert!(matches!(acl_method("has_permission"), AclMethod::HasPermission));
    assert!(matches!(acl_method("grant_permission"), AclMethod::GrantPermission));
    assert!(matches!(acl_method("inittest"), AclMethod::InitTest));
    assert!(matches!(acl_method("nope"), AclMethod::Unknown));
    let mut s = AclState::new();
    assert!(matches!(s.invoke(&env("x"), AclRequest::Unknown), Err(AclError::MethodNotFound)));
    assert_eq!(AclError::MethodNotFound.message(), "method not found");
}

#[test]
fn a_grant_stays_through_other_calls_until_revoked() {
    let mut s = AclState::new();
    s.init("community", "acl");
    let create = |who: &str, action: &str| AclRequest::CreatePermission {
        who: who.to_string(),
        what: "token".to_string(),
        action: action.to_string(),
        manager: "voting".to_string(),
    };
    assert!(s.invoke(&env("community"), create("voting", "token.mint")).is_ok());
    assert!(s.invoke(&env("community"), create("bob", "token.burn")).is_ok());
    let grant = AclRequest::GrantPermission {
        who: "carol".to_string(),
        what: "token".to_string(),
        action: "token.mint".to_string(),
    };
    assert!(s.invoke(&env("voting"), grant).is_ok());
    let revoke_other = AclRequest::RevokePermission {
        who: "bob".to_string(),
        what: "token".to_string(),
        action: "token.burn".to_string(),
    };
    assert!(s.invoke(&env("voting"), revoke_other).is_ok());
    assert_eq!(ask(&mut s, "voting", "token", "token.mint"), "true");
    assert_eq!(ask(&mut s, "carol", "token", "token.mint"), "true");
    assert_eq!(ask(&mut s, "community", "acl", ACTION_PERM_CREATE), "true");
    assert_eq!(ask(&mut s, "bob", "token", "token.burn"), "false");
    let revoke = AclRequest::RevokePermission {
        who: "voting".to_string(),
        what: "token".to_string(),
        action: "token.mint".to_string(),
    };
    assert!(s.invoke(&env("voting"), revoke).is_ok());
    assert_eq!(ask(&mut s, "voting", "token", "token.mint"), "false");
    assert_eq!(ask(&mut s, "carol", "token", "token.mint"), "true");
}

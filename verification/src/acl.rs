//! The access control list app: who may perform which action on which app, and
//! who manages each (app, action) pair.
//!
//! Addresses are handled in their text form, as the chain's address type writes
//! them; the permission and manager tables are keyed by digests of that text.
use crate::digest::sha256;
use crate::digest::sha256_digest;
use crate::digest::text_from_bytes_lossy;
use crate::digest::utf8_lossy;
use crate::strmap::StrMap;
use crate::text::same_text;
use vstd::prelude::*;
use vstd::utf8::encode_utf8;

verus! {

/// The action that allows its holder to create permissions.
pub const ACTION_PERM_CREATE: &'static str = "acl.createperm";

/// The value stored for a granted permission.
pub const PERMISSION_OK: u8 = 1;

/// The key under which a permission is kept: the digest of
/// `"permissions" + entity + app + action`, read as text.
pub open spec fn permission_key(entity: Seq<char>, app: Seq<char>, action: Seq<char>) -> Seq<char> {
    utf8_lossy(sha256(encode_utf8("permissions"@ + entity + app + action)))
}

/// The key under which the manager of an (app, action) pair is kept: the digest
/// of `"actions" + app + action`, read as text.
pub open spec fn action_key(app: Seq<char>, action: Seq<char>) -> Seq<char> {
    utf8_lossy(sha256(encode_utf8("actions"@ + app + action)))
}

/// Whether `who`, or the any-entity, holds the permission for `action` on `what`.
pub open spec fn holds(
    perms: Map<Seq<char>, u8>,
    who: Seq<char>,
    what: Seq<char>,
    action: Seq<char>,
    any_entity: Seq<char>,
) -> bool {
    perms.contains_key(permission_key(who, what, action)) || perms.contains_key(
        permission_key(any_entity, what, action),
    )
}

/// Whether `mgr` is the recorded manager of `action` on `what`.
pub open spec fn manages(
    managers: Map<Seq<char>, String>,
    mgr: Seq<char>,
    what: Seq<char>,
    action: Seq<char>,
) -> bool {
    managers.contains_key(action_key(what, action)) && managers[action_key(what, action)]@ == mgr
}

/// The key of a permission.
pub fn permission_hash(entity: &str, app: &str, action: &str) -> (k: String)
    ensures
        k@ == permission_key(entity@, app@, action@),
{
    let mut key = String::from_str("permissions");
    key.append(entity);
    key.append(app);
    key.append(action);
    let digest = sha256_digest(key.as_str().as_bytes());
    text_from_bytes_lossy(digest.as_slice())
}

/// The key of the manager of an (app, action) pair.
pub fn action_hash(what: &str, action: &str) -> (k: String)
    ensures
        k@ == action_key(what@, action@),
{
    let mut key = String::from_str("actions");
    key.append(what);
    key.append(action);
    let digest = sha256_digest(key.as_str().as_bytes());
    text_from_bytes_lossy(digest.as_slice())
}

/// What a call of the access control list is made in: the contract's own
/// address, the caller's, and the address that stands for any entity.
pub struct AclEnv {
    pub contract: String,
    pub caller: String,
    pub any_entity: String,
}

/// The stored state of the access control list.
pub struct AclState {
    /// Granted permissions, by permission key.
    pub permissions: StrMap<u8>,
    /// Managers, by action key.
    pub managers: StrMap<String>,
    /// The community that installed the list.
    pub community: Option<String>,
}

/// The methods that the access control list answers to.
pub enum AclMethod {
    InitTest,
    HasPermission,
    CreatePermission,
    GrantPermission,
    RevokePermission,
    SetPermissionManager,
    DeletePermissionManager,
    DefaultPermissions,
    Unknown,
}

/// A call of the access control list, with its arguments.
pub enum AclRequest {
    InitTest,
    HasPermission { who: String, what: String, action: String },
    CreatePermission { who: String, what: String, action: String, manager: String },
    GrantPermission { who: String, what: String, action: String },
    RevokePermission { who: String, what: String, action: String },
    SetPermissionManager { what: String, action: String, manager: String },
    DeletePermissionManager { what: String, action: String },
    DefaultPermissions,
    Unknown,
}

/// What a successful call hands back.
pub enum AclReply {
    /// The call returns nothing.
    Nothing,
    /// The call returns this text.
    Text(String),
    /// The default permissions: (action, address) pairs.
    Permissions(Vec<(String, String)>),
}

/// Why a call of the access control list is refused.
#[derive(PartialEq, Eq, Structural)]
pub enum AclError {
    NoCreatePermission,
    NotManagerToGrant,
    NotManagerToRevoke,
    NotManagerToSetManager,
    NotManagerToDeleteManager,
    PermissionNotExist,
    MethodNotFound,
}

/// The text that the contract returns for each refusal.
pub open spec fn acl_error_text(e: AclError) -> Seq<char> {
    match e {
        AclError::NoCreatePermission => "you don't have permission to create"@,
        AclError::NotManagerToGrant => "you don't have permission to grant"@,
        AclError::NotManagerToRevoke => "you don't have permission to revoke"@,
        AclError::NotManagerToSetManager => "you don't have permission to set manager"@,
        AclError::NotManagerToDeleteManager => "you don't have permission to delete manager"@,
        AclError::PermissionNotExist => "permission not exist"@,
        AclError::MethodNotFound => "method not found"@,
    }
}

impl AclError {
    /// The text that the contract returns for this refusal.
    pub fn message(&self) -> (t: String)
        ensures
            t@ == acl_error_text(*self),
    {
        match self {
            AclError::NoCreatePermission => String::from_str("you don't have permission to create"),
            AclError::NotManagerToGrant => String::from_str("you don't have permission to grant"),
            AclError::NotManagerToRevoke => String::from_str("you don't have permission to revoke"),
            AclError::NotManagerToSetManager => String::from_str(
                "you don't have permission to set manager",
            ),
            AclError::NotManagerToDeleteManager => String::from_str(
                "you don't have permission to delete manager",
            ),
            AclError::PermissionNotExist => String::from_str("permission not exist"),
            AclError::MethodNotFound => String::from_str("method not found"),
        }
    }
}

/// The method that a method name selects.
pub open spec fn acl_method_of(name: Seq<char>) -> AclMethod {
    if name == "inittest"@ {
        AclMethod::InitTest
    } else if name == "has_permission"@ {
        AclMethod::HasPermission
    } else if name == "create_permission"@ {
        AclMethod::CreatePermission
    } else if name == "grant_permission"@ {
        AclMethod::GrantPermission
    } else if name == "revoke_permission"@ {
        AclMethod::RevokePermission
    } else if name == "set_permission_manager"@ {
        AclMethod::SetPermissionManager
    } else if name == "delete_permission_manager"@ {
        AclMethod::DeletePermissionManager
    } else if name == "default_permissions"@ {
        AclMethod::DefaultPermissions
    } else {
        AclMethod::Unknown
    }
}

/// Selects the method that a call names.
pub fn acl_method(name: &str) -> (m: AclMethod)
    ensures
        m == acl_method_of(name@),
{
    if same_text(name, "inittest") {
        AclMethod::InitTest
    } else if same_text(name, "has_permission") {
        AclMethod::HasPermission
    } else if same_text(name, "create_permission") {
        AclMethod::CreatePermission
    } else if same_text(name, "grant_permission") {
        AclMethod::GrantPermission
    } else if same_text(name, "revoke_permission") {
        AclMethod::RevokePermission
    } else if same_text(name, "set_permission_manager") {
        AclMethod::SetPermissionManager
    } else if same_text(name, "delete_permission_manager") {
        AclMethod::DeletePermissionManager
    } else if same_text(name, "default_permissions") {
        AclMethod::DefaultPermissions
    } else {
        AclMethod::Unknown
    }
}

/// The permissions that the access control list asks for when installed: the
/// right to create permissions, held by the list itself.
pub fn default_permissions(contract: &str) -> (list: Vec<(String, String)>)
    ensures
        list@.len() == 1,
        list@[0].0@ == ACTION_PERM_CREATE@,
        list@[0].1@ == contract@,
{
    let mut list: Vec<(String, String)> = Vec::new();
    list.push((String::from_str(ACTION_PERM_CREATE), contract.to_owned()));
    list
}

impl AclState {
    /// A list with no permissions, no managers and no community.
    pub fn new() -> (s: Self)
        ensures
            s.permissions@ == Map::<Seq<char>, u8>::empty(),
            s.managers@ == Map::<Seq<char>, String>::empty(),
            s.community == None::<String>,
    {
        AclState { permissions: StrMap::new(), managers: StrMap::new(), community: None }
    }

    /// Records the community and lets it create permissions on the list.
    pub fn init(&mut self, community: &str, contract: &str)
        ensures
            final(self).community is Some,
            final(self).community.unwrap()@ == community@,
            final(self).permissions@ == old(self).permissions@.insert(
                permission_key(community@, contract@, ACTION_PERM_CREATE@),
                PERMISSION_OK,
            ),
            final(self).managers@ == old(self).managers@,
    {
        self.community = Some(community.to_owned());
        self.set_permission(community, contract, ACTION_PERM_CREATE);
    }

    /// Whether `who`, or any entity, holds the permission for `action` on `what`.
    pub fn has_permission(&self, who: &str, what: &str, action: &str, any_entity: &str) -> (b:
        bool)
        ensures
            b == holds(self.permissions@, who@, what@, action@, any_entity@),
    {
        let key = permission_hash(who, what, action);
        if self.permissions.contains_key(&key) {
            true
        } else {
            let any_key = permission_hash(any_entity, what, action);
            self.permissions.contains_key(&any_key)
        }
    }

    /// Grants `who` the permission for `action` on `what`.
    pub fn set_permission(&mut self, who: &str, what: &str, action: &str)
        ensures
            final(self).permissions@ == old(self).permissions@.insert(
                permission_key(who@, what@, action@),
                PERMISSION_OK,
            ),
            final(self).managers@ == old(self).managers@,
            final(self).community == old(self).community,
    {
        let key = permission_hash(who, what, action);
        self.permissions.insert(key, PERMISSION_OK);
    }

    /// Grants `who` the permission for `action` on `what` (the manager's call).
    pub fn grant_permission(&mut self, who: &str, what: &str, action: &str)
        ensures
            final(self).permissions@ == old(self).permissions@.insert(
                permission_key(who@, what@, action@),
                PERMISSION_OK,
            ),
            final(self).managers@ == old(self).managers@,
            final(self).community == old(self).community,
    {
        self.set_permission(who, what, action);
    }

    /// Grants `who` the permission for each of the actions on `what`.
    pub fn set_permission_list(&mut self, who: &str, what: &str, actions: &Vec<String>)
        ensures
            forall|k: Seq<char>|
                #![trigger final(self).permissions@.contains_key(k)]
                final(self).permissions@.contains_key(k) <==> (old(
                    self,
                ).permissions@.contains_key(k) || exists|i: int|
                    0 <= i < actions@.len() && k == permission_key(
                        who@,
                        what@,
                        #[trigger] actions@[i]@,
                    )),
            forall|k: Seq<char>|
                #![trigger final(self).permissions@[k]]
                final(self).permissions@.contains_key(k) ==> final(self).permissions@[k] == if (
                exists|i: int|
                    0 <= i < actions@.len() && k == permission_key(
                        who@,
                        what@,
                        #[trigger] actions@[i]@,
                    )) {
                    PERMISSION_OK
                } else {
                    old(self).permissions@[k]
                },
            final(self).managers@ == old(self).managers@,
            final(self).community == old(self).community,
    {
        let n = actions.len();
        let mut i: usize = 0;
        while i < n
            invariant
                n == actions@.len(),
                i <= n,
                self.managers@ == old(self).managers@,
                self.community == old(self).community,
                forall|k: Seq<char>|
                    #![trigger self.permissions@.contains_key(k)]
                    self.permissions@.contains_key(k) <==> (old(self).permissions@.contains_key(k)
                        || exists|j: int|
                        0 <= j < i && k == permission_key(who@, what@, #[trigger] actions@[j]@)),
                forall|k: Seq<char>|
                    #![trigger self.permissions@[k]]
                    self.permissions@.contains_key(k) ==> self.permissions@[k] == if (exists|j: int|
                        0 <= j < i && k == permission_key(who@, what@, #[trigger] actions@[j]@)) {
                        PERMISSION_OK
                    } else {
                        old(self).permissions@[k]
                    },
            decreases n - i,
        {
            let key = permission_hash(who, what, actions[i].as_str());
            self.permissions.insert(key, PERMISSION_OK);
            i = i + 1;
        }
    }

    /// The manager of `action` on `what`, if one is recorded.
    pub fn get_permission_manager(&self, what: &str, action: &str) -> (m: Option<String>)
        ensures
            match m {
                Some(a) => self.managers@.contains_key(action_key(what@, action@)) && a
                    == self.managers@[action_key(what@, action@)],
                None => !self.managers@.contains_key(action_key(what@, action@)),
            },
    {
        let key = action_hash(what, action);
        match self.managers.get(&key) {
            Some(a) => Some(a.clone()),
            None => None,
        }
    }

    /// Whether `mgr` manages `action` on `what`.
    pub fn is_permission_manager(&self, mgr: &str, what: &str, action: &str) -> (b: bool)
        ensures
            b == manages(self.managers@, mgr@, what@, action@),
    {
        match self.get_permission_manager(what, action) {
            Some(a) => same_text(a.as_str(), mgr),
            None => false,
        }
    }

    /// Makes `manager` the manager of `action` on `what`.
    pub fn set_permission_manager(&mut self, what: &str, action: &str, manager: &str)
        ensures
            final(self).managers@.dom() == old(self).managers@.dom().insert(
                action_key(what@, action@),
            ),
            final(self).managers@[action_key(what@, action@)]@ == manager@,
            forall|k: Seq<char>|
                k != action_key(what@, action@) && #[trigger] old(self).managers@.contains_key(k)
                    ==> final(self).managers@[k] == old(self).managers@[k],
            final(self).permissions@ == old(self).permissions@,
            final(self).community == old(self).community,
    {
        let key = action_hash(what, action);
        self.managers.insert(key, manager.to_owned());
    }

    /// Forgets the manager of `action` on `what`.
    pub fn delete_permission_manager(&mut self, what: &str, action: &str)
        ensures
            final(self).managers@ == old(self).managers@.remove(action_key(what@, action@)),
            final(self).permissions@ == old(self).permissions@,
            final(self).community == old(self).community,
    {
        let key = action_hash(what, action);
        self.managers.remove(&key);
    }

    /// Creates a permission: `manager` manages `action` on `what`, and `who` holds it.
    pub fn create_permission(&mut self, who: &str, what: &str, action: &str, manager: &str)
        ensures
            final(self).permissions@ == old(self).permissions@.insert(
                permission_key(who@, what@, action@),
                PERMISSION_OK,
            ),
            final(self).managers@.dom() == old(self).managers@.dom().insert(
                action_key(what@, action@),
            ),
            final(self).managers@[action_key(what@, action@)]@ == manager@,
            forall|k: Seq<char>|
                k != action_key(what@, action@) && #[trigger] old(self).managers@.contains_key(k)
                    ==> final(self).managers@[k] == old(self).managers@[k],
            final(self).community == old(self).community,
    {
        self.set_permission_manager(what, action, manager);
        self.set_permission(who, what, action);
    }

    /// Withdraws the permission for `action` on `what` from `who`; refused where
    /// `who` does not hold it.
    pub fn revoke_permission(&mut self, who: &str, what: &str, action: &str) -> (r: Result<
        (),
        AclError,
    >)
        ensures
            old(self).permissions@.contains_key(permission_key(who@, what@, action@)) ==> r
                == Ok::<(), AclError>(()) && final(self).permissions@ == old(
                self,
            ).permissions@.remove(permission_key(who@, what@, action@)),
            !old(self).permissions@.contains_key(permission_key(who@, what@, action@)) ==> r
                == Err::<(), AclError>(AclError::PermissionNotExist) && final(self).permissions@
                == old(self).permissions@,
            r is Err ==> *final(self) == *old(self),
            final(self).managers@ == old(self).managers@,
            final(self).community == old(self).community,
    {
        let key = permission_hash(who, what, action);
        match self.permissions.remove(&key) {
            Some(_) => Ok(()),
            None => Err(AclError::PermissionNotExist),
        }
    }
}

/// The text of a truth value, as the contract returns it.
pub open spec fn bool_text(b: bool) -> Seq<char> {
    if b {
        "true"@
    } else {
        "false"@
    }
}

impl AclState {
    /// Answers one call of the access control list. A refused call leaves the
    /// state as it was.
    pub fn invoke(&mut self, env: &AclEnv, req: AclRequest) -> (r: Result<AclReply, AclError>)
        ensures
            r is Err ==> *final(self) == *old(self),
            final(self).community == old(self).community,
            call_keeps(old(self).permissions@, final(self).permissions@, req),
            match req {
                AclRequest::InitTest => r matches Ok(AclReply::Nothing) && *final(self) == *old(
                    self,
                ),
                AclRequest::HasPermission { who, what, action } => {
                    &&& r matches Ok(AclReply::Text(t)) && t@ == bool_text(
                        holds(old(self).permissions@, who@, what@, action@, env.any_entity@),
                    )
                    &&& *final(self) == *old(self)
                },
                AclRequest::CreatePermission { who, what, action, manager } => if holds(
                    old(self).permissions@,
                    env.caller@,
                    env.contract@,
                    ACTION_PERM_CREATE@,
                    env.any_entity@,
                ) {
                    &&& r matches Ok(AclReply::Text(t)) && t@ == "success"@
                    &&& final(self).permissions@ == old(self).permissions@.insert(
                        permission_key(who@, what@, action@),
                        PERMISSION_OK,
                    )
                    &&& final(self).managers@.dom() == old(self).managers@.dom().insert(
                        action_key(what@, action@),
                    )
                    &&& final(self).managers@[action_key(what@, action@)]@ == manager@
                    &&& forall|k: Seq<char>|
                        k != action_key(what@, action@) && #[trigger] old(
                            self,
                        ).managers@.contains_key(k) ==> final(self).managers@[k] == old(
                            self,
                        ).managers@[k]
                } else {
                    r == Err::<AclReply, AclError>(AclError::NoCreatePermission)
                },
                AclRequest::GrantPermission { who, what, action } => if manages(
                    old(self).managers@,
                    env.caller@,
                    what@,
                    action@,
                ) {
                    &&& r matches Ok(AclReply::Nothing)
                    &&& final(self).permissions@ == old(self).permissions@.insert(
                        permission_key(who@, what@, action@),
                        PERMISSION_OK,
                    )
                    &&& final(self).managers@ == old(self).managers@
                } else {
                    r == Err::<AclReply, AclError>(AclError::NotManagerToGrant)
                },
                AclRequest::RevokePermission { who, what, action } => if !manages(
                    old(self).managers@,
                    env.caller@,
                    what@,
                    action@,
                ) {
                    r == Err::<AclReply, AclError>(AclError::NotManagerToRevoke)
                } else if !old(self).permissions@.contains_key(
                    permission_key(who@, what@, action@),
                ) {
                    r == Err::<AclReply, AclError>(AclError::PermissionNotExist)
                } else {
                    &&& r matches Ok(AclReply::Nothing)
                    &&& final(self).permissions@ == old(self).permissions@.remove(
                        permission_key(who@, what@, action@),
                    )
                    &&& final(self).managers@ == old(self).managers@
                },
                AclRequest::SetPermissionManager { what, action, manager } => if manages(
                    old(self).managers@,
                    env.caller@,
                    what@,
                    action@,
                ) {
                    &&& r matches Ok(AclReply::Nothing)
                    &&& final(self).managers@.dom() == old(self).managers@.dom()
                    &&& final(self).managers@[action_key(what@, action@)]@ == manager@
                    &&& forall|k: Seq<char>|
                        k != action_key(what@, action@) && #[trigger] old(
                            self,
                        ).managers@.contains_key(k) ==> final(self).managers@[k] == old(
                            self,
                        ).managers@[k]
                    &&& final(self).permissions@ == old(self).permissions@
                } else {
                    r == Err::<AclReply, AclError>(AclError::NotManagerToSetManager)
                },
                AclRequest::DeletePermissionManager { what, action } => if manages(
                    old(self).managers@,
                    env.caller@,
                    what@,
                    action@,
                ) {
                    &&& r matches Ok(AclReply::Nothing)
                    &&& final(self).managers@ == old(self).managers@.remove(
                        action_key(what@, action@),
                    )
                    &&& final(self).permissions@ == old(self).permissions@
                } else {
                    r == Err::<AclReply, AclError>(AclError::NotManagerToDeleteManager)
                },
                AclRequest::DefaultPermissions => {
                    &&& r matches Ok(AclReply::Permissions(list)) && list@.len() == 1
                        && list@[0].0@ == ACTION_PERM_CREATE@ && list@[0].1@ == env.contract@
                    &&& *final(self) == *old(self)
                },
                AclRequest::Unknown => r == Err::<AclReply, AclError>(AclError::MethodNotFound),
            },
    {
        match req {
            AclRequest::InitTest => Ok(AclReply::Nothing),
            AclRequest::HasPermission { who, what, action } => {
                let b = self.has_permission(
                    who.as_str(),
                    what.as_str(),
                    action.as_str(),
                    env.any_entity.as_str(),
                );
                if b {
                    Ok(AclReply::Text(String::from_str("true")))
                } else {
                    Ok(AclReply::Text(String::from_str("false")))
                }
            },
            AclRequest::CreatePermission { who, what, action, manager } => {
                if self.has_permission(
                    env.caller.as_str(),
                    env.contract.as_str(),
                    ACTION_PERM_CREATE,
                    env.any_entity.as_str(),
                ) {
                    self.create_permission(
                        who.as_str(),
                        what.as_str(),
                        action.as_str(),
                        manager.as_str(),
                    );
                    Ok(AclReply::Text(String::from_str("success")))
                } else {
                    Err(AclError::NoCreatePermission)
                }
            },
            AclRequest::GrantPermission { who, what, action } => {
                if self.is_permission_manager(env.caller.as_str(), what.as_str(), action.as_str()) {
                    self.grant_permission(who.as_str(), what.as_str(), action.as_str());
                    Ok(AclReply::Nothing)
                } else {
                    Err(AclError::NotManagerToGrant)
                }
            },
            AclRequest::RevokePermission { who, what, action } => {
                if self.is_permission_manager(env.caller.as_str(), what.as_str(), action.as_str()) {
                    match self.revoke_permission(who.as_str(), what.as_str(), action.as_str()) {
                        Ok(()) => Ok(AclReply::Nothing),
                        Err(e) => Err(e),
                    }
                } else {
                    Err(AclError::NotManagerToRevoke)
                }
            },
            AclRequest::SetPermissionManager { what, action, manager } => {
                if !self.is_permission_manager(env.caller.as_str(), what.as_str(), action.as_str()) {
                    return Err(AclError::NotManagerToSetManager);
                }
                self.set_permission_manager(what.as_str(), action.as_str(), manager.as_str());
                Ok(AclReply::Nothing)
            },
            AclRequest::DeletePermissionManager { what, action } => {
                if !self.is_permission_manager(env.caller.as_str(), what.as_str(), action.as_str()) {
                    return Err(AclError::NotManagerToDeleteManager);
                }
                self.delete_permission_manager(what.as_str(), action.as_str());
                Ok(AclReply::Nothing)
            },
            AclRequest::DefaultPermissions => Ok(
                AclReply::Permissions(default_permissions(env.contract.as_str())),
            ),
            AclRequest::Unknown => Err(AclError::MethodNotFound),
        }
    }
}

/// The permission key that a call revokes, where it is a revocation.
pub open spec fn revoked_key(req: AclRequest) -> Option<Seq<char>> {
    match req {
        AclRequest::RevokePermission { who, what, action } => Some(
            permission_key(who@, what@, action@),
        ),
        _ => None,
    }
}

/// A call keeps every permission but the one it revokes.
pub open spec fn call_keeps(pre: Map<Seq<char>, u8>, post: Map<Seq<char>, u8>, req: AclRequest) -> bool {
    forall|k: Seq<char>|
        #[trigger] pre.contains_key(k) && revoked_key(req) != Some(k) ==> post.contains_key(k)
}

/// A grant stays until it is revoked: over any sequence of calls, each of which
/// keeps every permission but the one it revokes (as [`AclState::invoke`]
/// does), a permission held at the start is still held at the end unless one
/// of the calls revokes it.
pub proof fn law_grant_stays_until_revoked(
    states: Seq<Map<Seq<char>, u8>>,
    reqs: Seq<AclRequest>,
    who: Seq<char>,
    what: Seq<char>,
    action: Seq<char>,
    any_entity: Seq<char>,
)
    requires
        states.len() == reqs.len() + 1,
        forall|i: int| 0 <= i < reqs.len() ==> call_keeps(states[i], states[i + 1], #[trigger] reqs[i]),
        states[0].contains_key(permission_key(who, what, action)),
        forall|i: int|
            0 <= i < reqs.len() ==> revoked_key(#[trigger] reqs[i]) != Some(
                permission_key(who, what, action),
            ),
    ensures
        states[reqs.len() as int].contains_key(permission_key(who, what, action)),
        holds(states[reqs.len() as int], who, what, action, any_entity),
    decreases reqs.len(),
{
    let key = permission_key(who, what, action);
    if reqs.len() > 0 {
        let n = reqs.len() - 1;
        let s2 = states.drop_last();
        let r2 = reqs.drop_last();
        assert forall|i: int| 0 <= i < r2.len() implies call_keeps(s2[i], s2[i + 1], #[trigger] r2[i]) by {
            assert(r2[i] == reqs[i]);
            assert(call_keeps(states[i], states[i + 1], reqs[i]));
        }
        assert forall|i: int| 0 <= i < r2.len() implies revoked_key(#[trigger] r2[i]) != Some(key) by {
            assert(r2[i] == reqs[i]);
        }
        law_grant_stays_until_revoked(s2, r2, who, what, action, any_entity);
        assert(call_keeps(states[n], states[n + 1], reqs[n]));
        assert(revoked_key(reqs[n]) != Some(key));
        assert(states[n].contains_key(key));
    }
}

/// Granting never takes a permission away: after any call that is no
/// revocation, whoever held a permission still holds it.
pub proof fn law_granting_keeps_permissions(
    pre: Map<Seq<char>, u8>,
    post: Map<Seq<char>, u8>,
    req: AclRequest,
    who: Seq<char>,
    what: Seq<char>,
    action: Seq<char>,
    any_entity: Seq<char>,
)
    requires
        call_keeps(pre, post, req),
        revoked_key(req) is None,
        holds(pre, who, what, action, any_entity),
    ensures
        holds(post, who, what, action, any_entity),
{
    if pre.contains_key(permission_key(who, what, action)) {
        assert(post.contains_key(permission_key(who, what, action)));
    } else {
        assert(post.contains_key(permission_key(any_entity, what, action)));
    }
}

/// A granted permission is held: after `who` is granted `action` on `what`,
/// `has_permission` says yes.
pub proof fn law_granted_is_held(
    perms: Map<Seq<char>, u8>,
    who: Seq<char>,
    what: Seq<char>,
    action: Seq<char>,
    any_entity: Seq<char>,
)
    ensures
        holds(
            perms.insert(permission_key(who, what, action), PERMISSION_OK),
            who,
            what,
            action,
            any_entity,
        ),
{
}

/// A permission granted to the any-entity is held by every entity.
pub proof fn law_any_entity_covers_all(
    perms: Map<Seq<char>, u8>,
    who: Seq<char>,
    what: Seq<char>,
    action: Seq<char>,
    any_entity: Seq<char>,
)
    ensures
        holds(
            perms.insert(permission_key(any_entity, what, action), PERMISSION_OK),
            who,
            what,
            action,
            any_entity,
        ),
{
}

/// Revoking undoes granting: granting a permission that was not held, then
/// revoking it, gives back the table as it was.
pub proof fn law_revoke_undoes_grant(
    perms: Map<Seq<char>, u8>,
    who: Seq<char>,
    what: Seq<char>,
    action: Seq<char>,
)
    requires
        !perms.contains_key(permission_key(who, what, action)),
    ensures
        perms.insert(permission_key(who, what, action), PERMISSION_OK).remove(
            permission_key(who, what, action),
        ) == perms,
{
    assert(perms.insert(permission_key(who, what, action), PERMISSION_OK).remove(
        permission_key(who, what, action),
    ) =~= perms);
}

/// After a revocation, the revoked entity no longer holds the permission by its
/// own entry: only a grant to the any-entity can still give it.
pub proof fn law_revoked_only_through_any(
    perms: Map<Seq<char>, u8>,
    who: Seq<char>,
    what: Seq<char>,
    action: Seq<char>,
    any_entity: Seq<char>,
)
    ensures
        holds(perms.remove(permission_key(who, what, action)), who, what, action, any_entity)
            ==> permission_key(any_entity, what, action) != permission_key(who, what, action)
            && perms.contains_key(permission_key(any_entity, what, action)),
{
}

/// The manager just set manages the pair; after the manager is deleted, nobody does.
pub proof fn law_manager_set_and_delete(
    managers: Map<Seq<char>, String>,
    mgr: String,
    someone: Seq<char>,
    what: Seq<char>,
    action: Seq<char>,
)
    ensures
        manages(managers.insert(action_key(what, action), mgr), mgr@, what, action),
        !manages(managers.remove(action_key(what, action)), someone, what, action),
{
}

} // verus!

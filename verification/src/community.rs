//! The community template: the contract that makes its DAO, keeps the table of
//! installed apps, and forwards queries to them.
use crate::strmap::StrMap;
use crate::text::same_text;
use vstd::prelude::*;

verus! {

/// The stored table of installed apps.
pub enum AppsRecord {
    /// No table is stored.
    Missing,
    /// A table is stored but cannot be read as a map of names to addresses.
    Unreadable,
    /// The installed apps' addresses, by name.
    Present(StrMap<String>),
}

/// The stored state of the community.
pub struct Community {
    pub apps: AppsRecord,
}

/// Why a call of the community fails.
pub enum CommunityError {
    /// The call is refused with this text.
    Refused(String),
    /// The stored table cannot be read where the contract reads it unchecked:
    /// the contract call aborts.
    AbortUnreadableApps,
}

/// The apps that the community forwards queries to.
pub enum QueryKind {
    Balances,
    Votes,
    Permissions,
}

/// The app that answers a query.
pub open spec fn query_app_name(kind: QueryKind) -> Seq<char> {
    match kind {
        QueryKind::Balances => "token_app"@,
        QueryKind::Votes => "voting_app"@,
        QueryKind::Permissions => "acl_app"@,
    }
}

/// The method that a forwarded query calls.
pub open spec fn query_method_name(kind: QueryKind) -> Seq<char> {
    match kind {
        QueryKind::Balances => "query_balances"@,
        QueryKind::Votes => "query_votes"@,
        QueryKind::Permissions => "query_permissions"@,
    }
}

/// The text that a forwarded query fails with where the app answers nothing.
pub open spec fn query_failure_text(kind: QueryKind) -> Seq<char> {
    match kind {
        QueryKind::Balances => "query balance failed, call token contract error, return none"@,
        QueryKind::Votes => "query votes failed,call voting contract error, return none"@,
        QueryKind::Permissions => "query permissions failed, call acl contract error, return none"@,
    }
}

/// What looking an app up answers: its address, or the text of the refusal.
pub open spec fn app_address_spec(apps: AppsRecord, name: Seq<char>) -> Result<Seq<char>, Seq<char>> {
    match apps {
        AppsRecord::Missing => Err(name + "not existed"@),
        AppsRecord::Unreadable => Err("parse to hash map failed"@),
        AppsRecord::Present(m) => if m@.contains_key(name) {
            Ok(m@[name]@)
        } else {
            Err(name + "not existed"@)
        },
    }
}

fn not_existed(name: &str) -> (t: String)
    ensures
        t@ == name@ + "not existed"@,
{
    let mut t = name.to_owned();
    t.append("not existed");
    t
}

/// The permissions that the community asks for when installed: it manages itself.
pub fn default_permission(contract: &str) -> (list: Vec<(String, String)>)
    ensures
        list@.len() == 1,
        list@[0].0@ == "community.manage"@,
        list@[0].1@ == contract@,
{
    let mut list: Vec<(String, String)> = Vec::new();
    list.push((String::from_str("community.manage"), contract.to_owned()));
    list
}

/// The query method of a forwarded query.
pub fn query_method(kind: &QueryKind) -> (m: String)
    ensures
        m@ == query_method_name(*kind),
{
    match kind {
        QueryKind::Balances => String::from_str("query_balances"),
        QueryKind::Votes => String::from_str("query_votes"),
        QueryKind::Permissions => String::from_str("query_permissions"),
    }
}

/// Judges the app's answer to a forwarded query: it is passed on as it is.
pub fn query_reply(kind: &QueryKind, reply: Option<Vec<u8>>) -> (r: Result<Vec<u8>, CommunityError>)
    ensures
        match reply {
            Some(bytes) => r matches Ok(b) && b@ == bytes@,
            None => r matches Err(CommunityError::Refused(t)) && t@ == query_failure_text(*kind),
        },
{
    match reply {
        Some(bytes) => Ok(bytes),
        None => Err(
            CommunityError::Refused(
                match kind {
                    QueryKind::Balances => String::from_str(
                        "query balance failed, call token contract error, return none",
                    ),
                    QueryKind::Votes => String::from_str(
                        "query votes failed,call voting contract error, return none",
                    ),
                    QueryKind::Permissions => String::from_str(
                        "query permissions failed, call acl contract error, return none",
                    ),
                },
            ),
        ),
    }
}

/// Judges the access control list's answer to "may the caller do this":
/// `lookup` is where the list was looked up, `reply` its answer (`None` where it
/// answered nothing, `Some(None)` where the answer is not text).
pub fn permission_outcome(lookup: &Result<String, String>, reply: Option<Option<String>>) -> (r:
    Result<(), CommunityError>)
    ensures
        match lookup {
            Err(msg) => r matches Err(CommunityError::Refused(t)) && t@ == msg@,
            Ok(_) => match reply {
                None => r matches Err(CommunityError::Refused(t)) && t@
                    == "call contract error, no response"@,
                Some(None) => r matches Err(CommunityError::Refused(t)) && t@
                    == "call acl contract error, failed to parse response of has permission"@,
                Some(Some(a)) => if a@ == "true"@ {
                    r is Ok
                } else {
                    r matches Err(CommunityError::Refused(t)) && t@
                        == "call acl contract error, you have no permission"@
                },
            },
        },
{
    match lookup {
        Err(msg) => Err(CommunityError::Refused(msg.clone())),
        Ok(_) => match reply {
            None => Err(CommunityError::Refused(String::from_str("call contract error, no response"))),
            Some(None) => Err(
                CommunityError::Refused(
                    String::from_str(
                        "call acl contract error, failed to parse response of has permission",
                    ),
                ),
            ),
            Some(Some(a)) => if same_text(a.as_str(), "true") {
                Ok(())
            } else {
                Err(
                    CommunityError::Refused(
                        String::from_str("call acl contract error, you have no permission"),
                    ),
                )
            },
        },
    }
}

impl Community {
    /// A community with no table of apps.
    pub fn new() -> (c: Self)
        ensures
            c.apps is Missing,
    {
        Community { apps: AppsRecord::Missing }
    }

    /// Keeps the table of apps that making the DAO installed.
    pub fn install(&mut self, installed: StrMap<String>)
        ensures
            final(self).apps matches AppsRecord::Present(m) && m@ == installed@,
    {
        self.apps = AppsRecord::Present(installed);
    }

    /// The stored table of apps, where one is stored.
    pub fn get_apps(&self) -> (r: Option<&AppsRecord>)
        ensures
            self.apps is Missing ==> r is None,
            !(self.apps is Missing) ==> r == Some(&self.apps),
    {
        match &self.apps {
            AppsRecord::Missing => None,
            other => Some(other),
        }
    }

    /// The address of the app with the given name.
    pub fn get_app_address(&self, name: &str) -> (r: Result<String, String>)
        ensures
            match app_address_spec(self.apps, name@) {
                Ok(a) => r matches Ok(t) && t@ == a,
                Err(m) => r matches Err(t) && t@ == m,
            },
    {
        match &self.apps {
            AppsRecord::Missing => Err(not_existed(name)),
            AppsRecord::Unreadable => Err(String::from_str("parse to hash map failed")),
            AppsRecord::Present(m) => match m.get(&name.to_owned()) {
                Some(a) => Ok(a.clone()),
                None => Err(not_existed(name)),
            },
        }
    }

    /// Where a forwarded query goes: the address of the app that answers it.
    pub fn query_target(&self, kind: &QueryKind) -> (r: Result<String, CommunityError>)
        ensures
            match app_address_spec(self.apps, query_app_name(*kind)) {
                Ok(a) => r matches Ok(t) && t@ == a,
                Err(m) => r matches Err(CommunityError::Refused(t)) && t@ == m,
            },
    {
        let name = match kind {
            QueryKind::Balances => "token_app",
            QueryKind::Votes => "voting_app",
            QueryKind::Permissions => "acl_app",
        };
        match self.get_app_address(name) {
            Ok(a) => Ok(a),
            Err(m) => Err(CommunityError::Refused(m)),
        }
    }

    /// Adds an app to the table (starting one where none is stored).
    pub fn add_app(&mut self, app_name: &str, app_addr: &str) -> (r: Result<(), CommunityError>)
        ensures
            match old(self).apps {
                AppsRecord::Unreadable => r matches Err(CommunityError::AbortUnreadableApps),
                AppsRecord::Missing => r is Ok && (final(self).apps matches AppsRecord::Present(m)
                    && m@.dom() == set![app_name@] && m@[app_name@]@ == app_addr@),
                AppsRecord::Present(old_m) => r is Ok && (final(self).apps matches AppsRecord::Present(
                    m,
                ) && m@.dom() == old_m@.dom().insert(app_name@) && m@[app_name@]@ == app_addr@
                    && forall|k: Seq<char>|
                    k != app_name@ && #[trigger] old_m@.contains_key(k) ==> m@[k] == old_m@[k]),
            },
    {
        let mut apps = AppsRecord::Missing;
        std::mem::swap(&mut apps, &mut self.apps);
        match apps {
            AppsRecord::Unreadable => {
                self.apps = AppsRecord::Unreadable;
                Err(CommunityError::AbortUnreadableApps)
            },
            AppsRecord::Missing => {
                let mut m: StrMap<String> = StrMap::new();
                m.insert(app_name.to_owned(), app_addr.to_owned());
                proof {
                    assert(m@.dom() =~= set![app_name@]);
                }
                self.apps = AppsRecord::Present(m);
                Ok(())
            },
            AppsRecord::Present(mut m) => {
                m.insert(app_name.to_owned(), app_addr.to_owned());
                self.apps = AppsRecord::Present(m);
                Ok(())
            },
        }
    }

    /// Takes an app out of the table.
    pub fn remove_app(&mut self, app_name: &str) -> (r: Result<(), CommunityError>)
        ensures
            match old(self).apps {
                AppsRecord::Missing => r matches Err(CommunityError::Refused(t)) && t@
                    == "no apps yet"@,
                AppsRecord::Unreadable => r matches Err(CommunityError::AbortUnreadableApps),
                AppsRecord::Present(old_m) => r is Ok && (final(self).apps matches AppsRecord::Present(
                    m,
                ) && m@ == old_m@.remove(app_name@)),
            },
    {
        let mut apps = AppsRecord::Missing;
        std::mem::swap(&mut apps, &mut self.apps);
        match apps {
            AppsRecord::Missing => Err(CommunityError::Refused(String::from_str("no apps yet"))),
            AppsRecord::Unreadable => {
                self.apps = AppsRecord::Unreadable;
                Err(CommunityError::AbortUnreadableApps)
            },
            AppsRecord::Present(mut m) => {
                m.remove(&app_name.to_owned());
                self.apps = AppsRecord::Present(m);
                Ok(())
            },
        }
    }
}

/// The methods that the community answers to.
pub enum CommunityMethod {
    AddApp,
    RemoveApp,
    DefaultPermissions,
    QueryApps,
    QueryVotes,
    QueryBalances,
    QueryApp,
    QueryPermissions,
    Unknown,
}

/// The method that a method name selects; `invoke` answers to all of them,
/// `query` only to the queries.
pub open spec fn community_method_of(name: Seq<char>, invoke: bool) -> CommunityMethod {
    if invoke && name == "add_app"@ {
        CommunityMethod::AddApp
    } else if invoke && name == "remove_app"@ {
        CommunityMethod::RemoveApp
    } else if invoke && name == "default_permissions"@ {
        CommunityMethod::DefaultPermissions
    } else if name == "query_apps"@ {
        CommunityMethod::QueryApps
    } else if name == "query_votes"@ {
        CommunityMethod::QueryVotes
    } else if name == "query_balances"@ {
        CommunityMethod::QueryBalances
    } else if name == "query_app"@ {
        CommunityMethod::QueryApp
    } else if name == "query_permissions"@ {
        CommunityMethod::QueryPermissions
    } else {
        CommunityMethod::Unknown
    }
}

/// Selects the method that a call names.
pub fn community_method(name: &str, invoke: bool) -> (m: CommunityMethod)
    ensures
        m == community_method_of(name@, invoke),
{
    if invoke && same_text(name, "add_app") {
        CommunityMethod::AddApp
    } else if invoke && same_text(name, "remove_app") {
        CommunityMethod::RemoveApp
    } else if invoke && same_text(name, "default_permissions") {
        CommunityMethod::DefaultPermissions
    } else if same_text(name, "query_apps") {
        CommunityMethod::QueryApps
    } else if same_text(name, "query_votes") {
        CommunityMethod::QueryVotes
    } else if same_text(name, "query_balances") {
        CommunityMethod::QueryBalances
    } else if same_text(name, "query_app") {
        CommunityMethod::QueryApp
    } else if same_text(name, "query_permissions") {
        CommunityMethod::QueryPermissions
    } else {
        CommunityMethod::Unknown
    }
}

/// An app just added is found at the address it was added with; an app just
/// removed is not found.
pub proof fn law_added_app_is_found(
    after_add: StrMap<String>,
    after_remove: StrMap<String>,
    before: Map<Seq<char>, String>,
    name: Seq<char>,
    addr: Seq<char>,
)
    requires
        after_add@.dom() == before.dom().insert(name),
        after_add@[name]@ == addr,
        after_remove@ == before.remove(name),
    ensures
        app_address_spec(AppsRecord::Present(after_add), name) == Ok::<Seq<char>, Seq<char>>(addr),
        app_address_spec(AppsRecord::Present(after_remove), name) == Err::<Seq<char>, Seq<char>>(
            name + "not existed"@,
        ),
{
}

} // verus!

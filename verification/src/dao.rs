//! The DAO factory: which apps a DAO is made of, which permissions they grant
//! each other, and the order in which a community installs them.
//!
//! Installing creates contracts and calls them, which only the host can do; the
//! factory plans the steps and judges each answer.
use crate::strmap::StrMap;
use crate::text::same_text;
use crate::text::copy_texts;
use vstd::prelude::*;

verus! {

/// A permission that an app grants when a DAO is made: every name is an app's name.
pub struct AllPermission {
    pub who: String,
    pub what: String,
    pub action: String,
    pub manager: String,
}

/// A permission as values.
pub struct PermissionView {
    pub who: Seq<char>,
    pub what: Seq<char>,
    pub action: Seq<char>,
    pub manager: Seq<char>,
}

impl View for AllPermission {
    type V = PermissionView;

    open spec fn view(&self) -> PermissionView {
        PermissionView {
            who: self.who@,
            what: self.what@,
            action: self.action@,
            manager: self.manager@,
        }
    }
}

/// The apps a DAO may be made of, with their code hashes, and the permissions
/// that each grants when installed.
pub struct AllContracts {
    pub default_contracts: StrMap<String>,
    pub default_permissions: StrMap<Vec<AllPermission>>,
}

fn permission(who: &str, what: &str, action: &str, manager: &str) -> (p: AllPermission)
    ensures
        p@ == (PermissionView { who: who@, what: what@, action: action@, manager: manager@ }),
{
    AllPermission {
        who: who.to_owned(),
        what: what.to_owned(),
        action: action.to_owned(),
        manager: manager.to_owned(),
    }
}

/// The code hash of each app a DAO may be made of: every one is empty.
pub open spec fn default_code_hashes() -> Map<Seq<char>, Seq<char>> {
    map![
        "acl_app"@ => Seq::<char>::empty(),
        "voting_app"@ => Seq::<char>::empty(),
        "token_app"@ => Seq::<char>::empty(),
        "finance_app"@ => Seq::<char>::empty(),
    ]
}

/// The permissions listed for an app, as values.
pub open spec fn permission_views(list: Seq<AllPermission>) -> Seq<PermissionView> {
    list.map_values(|p: AllPermission| p@)
}

impl AllContracts {
    /// The apps and their default permissions: the access control list lets the
    /// community create permissions on it, and the token lets the voting app
    /// mint and burn. Every code hash is empty.
    pub fn new() -> (all: AllContracts)
        ensures
            text_values(all.default_contracts@) == default_code_hashes(),
            all.default_permissions@.dom() == set!["acl_app"@, "token_app"@],
            permission_views(all.default_permissions@["acl_app"@]@) == seq![
                PermissionView {
                    who: "community_app"@,
                    what: "acl_app"@,
                    action: "acl.create_per"@,
                    manager: "community_app"@,
                },
            ],
            permission_views(all.default_permissions@["token_app"@]@) == seq![
                PermissionView {
                    who: "voting_app"@,
                    what: "token_app"@,
                    action: "token.mint"@,
                    manager: "voting_app"@,
                },
                PermissionView {
                    who: "voting_app"@,
                    what: "token_app"@,
                    action: "token.burn"@,
                    manager: "voting_app"@,
                },
            ],
    {
        let mut default_contracts: StrMap<String> = StrMap::new();
        default_contracts.insert(String::from_str("acl_app"), String::from_str(""));
        default_contracts.insert(String::from_str("voting_app"), String::from_str(""));
        default_contracts.insert(String::from_str("token_app"), String::from_str(""));
        default_contracts.insert(String::from_str("finance_app"), String::from_str(""));
        proof {
            reveal_strlit("");
            reveal_strlit("acl_app");
            reveal_strlit("voting_app");
            reveal_strlit("token_app");
            reveal_strlit("finance_app");
            assert(default_contracts@.dom() =~= default_code_hashes().dom());
            assert(text_values(default_contracts@).dom() =~= default_code_hashes().dom());
            assert forall|k: Seq<char>| #[trigger] default_code_hashes().contains_key(k) implies
                text_values(default_contracts@)[k] == default_code_hashes()[k] by {
                assert(default_contracts@[k]@ == Seq::<char>::empty());
            }
            assert(text_values(default_contracts@) =~= default_code_hashes());
        }
        let mut acl_list: Vec<AllPermission> = Vec::new();
        acl_list.insert(0, permission("community_app", "acl_app", "acl.create_per", "community_app"));
        let mut token_list: Vec<AllPermission> = Vec::new();
        token_list.insert(0, permission("voting_app", "token_app", "token.mint", "voting_app"));
        token_list.insert(1, permission("voting_app", "token_app", "token.burn", "voting_app"));
        proof {
            assert(permission_views(acl_list@) =~= seq![
                PermissionView {
                    who: "community_app"@,
                    what: "acl_app"@,
                    action: "acl.create_per"@,
                    manager: "community_app"@,
                },
            ]);
            assert(permission_views(token_list@) =~= seq![
                PermissionView {
                    who: "voting_app"@,
                    what: "token_app"@,
                    action: "token.mint"@,
                    manager: "voting_app"@,
                },
                PermissionView {
                    who: "voting_app"@,
                    what: "token_app"@,
                    action: "token.burn"@,
                    manager: "voting_app"@,
                },
            ]);
        }
        let mut default_permissions: StrMap<Vec<AllPermission>> = StrMap::new();
        default_permissions.insert(String::from_str("acl_app"), acl_list);
        default_permissions.insert(String::from_str("token_app"), token_list);
        proof {
            reveal_strlit("acl_app");
            reveal_strlit("token_app");
            assert("acl_app"@.len() != "token_app"@.len());
            assert(default_permissions@.dom() =~= set!["acl_app"@, "token_app"@]);
        }
        AllContracts { default_contracts, default_permissions }
    }
}

/// An app to install, and the arguments of its `init` call.
pub struct ContractArgs {
    pub app_name: String,
    pub init_args: Vec<String>,
}

/// One contract to create and initialise: create it from the code named
/// `code_hash`, then call its `init` with `init_args`.
pub struct Install {
    pub code_hash: String,
    pub init_args: Vec<String>,
}

/// Why making a DAO fails.
#[derive(Clone, Copy, PartialEq, Eq, Structural)]
pub enum DaoError {
    /// The apps' arguments are not a list of apps.
    InvalidAppsArgs,
    /// A call returned nothing.
    CallReturnedNone,
    /// An app's `init` answered something else than `Success`; the answer is
    /// what the call returns.
    InitRejected,
    /// A permission names an app that is not installed.
    AppNotInstalled,
    /// The access control list did not answer `Success`.
    PermissionFailed,
    /// The access control list's answer is not text.
    PermissionReplyUnreadable,
    /// The access control list did not answer.
    PermissionNoResponse,
    /// An app to install has no code hash listed.
    AppNotDefined,
}

/// The text that making a DAO returns for each failure (a rejected `init`
/// returns the app's answer instead).
pub open spec fn dao_error_text(e: DaoError) -> Seq<char> {
    match e {
        DaoError::InvalidAppsArgs => "invalid apps args"@,
        DaoError::CallReturnedNone => "call contract error, return none"@,
        DaoError::InitRejected => "init rejected"@,
        DaoError::AppNotInstalled => "the app not installed yet"@,
        DaoError::PermissionFailed => "call acl contract error, set permission failed"@,
        DaoError::PermissionReplyUnreadable => "call acl contract error, failed to parse response of create default permission"@,
        DaoError::PermissionNoResponse => "call contract error, no response"@,
        DaoError::AppNotDefined => "the app not defined"@,
    }
}

impl DaoError {
    /// The text that making a DAO returns for this failure.
    pub fn message(&self) -> (t: String)
        ensures
            t@ == dao_error_text(*self),
    {
        match self {
            DaoError::InvalidAppsArgs => String::from_str("invalid apps args"),
            DaoError::CallReturnedNone => String::from_str("call contract error, return none"),
            DaoError::InitRejected => String::from_str("init rejected"),
            DaoError::AppNotInstalled => String::from_str("the app not installed yet"),
            DaoError::PermissionFailed => String::from_str(
                "call acl contract error, set permission failed",
            ),
            DaoError::PermissionReplyUnreadable => String::from_str(
                "call acl contract error, failed to parse response of create default permission",
            ),
            DaoError::PermissionNoResponse => String::from_str("call contract error, no response"),
            DaoError::AppNotDefined => String::from_str("the app not defined"),
        }
    }
}

/// The contracts to create, in order: the access control list (from the empty
/// code hash, initialised with the community's address), then each app (from
/// the code its name names); and the failure that follows them, if any.
pub struct InstallPlan {
    pub installs: Vec<Install>,
    pub failure: Option<DaoError>,
}

/// Whether installs `1..=k` create the first `k` apps, each from the code hash
/// that `hashes` lists for its name and with its own `init` arguments.
pub open spec fn installs_match(
    installs: Seq<Install>,
    apps: Seq<ContractArgs>,
    k: int,
    hashes: Map<Seq<char>, Seq<char>>,
) -> bool {
    forall|j: int|
        #![trigger installs[j]]
        1 <= j && j <= k ==> (installs[j].code_hash@ == hashes[apps[j - 1].app_name@]
            && installs[j].init_args@ == apps[j - 1].init_args@)
}

/// Whether the first `k` apps all have a code hash listed in `hashes`.
pub open spec fn apps_defined(apps: Seq<ContractArgs>, k: int, hashes: Map<Seq<char>, Seq<char>>) -> bool {
    forall|i: int| 0 <= i < k ==> hashes.contains_key(#[trigger] apps[i].app_name@)
}

proof fn lemma_installs_push(
    installs: Seq<Install>,
    apps: Seq<ContractArgs>,
    k: int,
    x: Install,
    hashes: Map<Seq<char>, Seq<char>>,
)
    requires
        0 <= k < apps.len(),
        installs.len() == k + 1,
        installs_match(installs, apps, k, hashes),
        hashes.contains_key(apps[k].app_name@),
        x.code_hash@ == hashes[apps[k].app_name@],
        x.init_args@ == apps[k].init_args@,
    ensures
        installs_match(installs.push(x), apps, k + 1, hashes),
{
    assert forall|j: int| #![trigger installs.push(x)[j]] 1 <= j && j <= k + 1 implies (
    installs.push(x)[j].code_hash@ == hashes[apps[j - 1].app_name@] && installs.push(x)[j].init_args@
        == apps[j - 1].init_args@) by {
        if j <= k {
            assert(installs.push(x)[j] == installs[j]);
        }
    }
}

/// Plans making a DAO for the community at `community`: the access control
/// list first, then each app in order, each created from the code hash that
/// [`AllContracts::new`] lists for its name. `apps` is `None` where the apps'
/// arguments are no list of apps: then only the access control list is
/// installed before the plan fails. An app with no code hash listed ends the
/// plan before it.
pub fn create_dao(community: &str, apps: Option<&Vec<ContractArgs>>) -> (plan: InstallPlan)
    ensures
        plan.installs@.len() >= 1,
        plan.installs@[0].code_hash@ == default_code_hashes()["acl_app"@],
        plan.installs@[0].init_args@.len() == 1,
        plan.installs@[0].init_args@[0]@ == community@,
        apps is None ==> plan.installs@.len() == 1 && plan.failure == Some::<DaoError>(
            DaoError::InvalidAppsArgs,
        ),
        apps matches Some(list) ==> {
            let k = plan.installs@.len() - 1;
            &&& k <= list@.len()
            &&& installs_match(plan.installs@, list@, k, default_code_hashes())
            &&& apps_defined(list@, k, default_code_hashes())
            &&& k < list@.len() ==> !default_code_hashes().contains_key(list@[k].app_name@)
                && plan.failure == Some::<DaoError>(DaoError::AppNotDefined)
            &&& k == list@.len() ==> plan.failure is None
        },
{
    let all = AllContracts::new();
    let mut installs: Vec<Install> = Vec::new();
    let mut acl_args: Vec<String> = Vec::new();
    acl_args.push(community.to_owned());
    let acl_hash = match all.default_contracts.get(&String::from_str("acl_app")) {
        Some(h) => h.clone(),
        None => String::new(),
    };
    proof {
        reveal_strlit("acl_app");
        assert(text_values(all.default_contracts@).contains_key("acl_app"@));
    }
    installs.push(Install { code_hash: acl_hash, init_args: acl_args });
    match apps {
        None => {
            InstallPlan { installs, failure: Some(DaoError::InvalidAppsArgs) }
        },
        Some(list) => {
            let n = list.len();
            let mut i: usize = 0;
            while i < n
                invariant
                    n == list@.len(),
                    i <= n,
                    apps == Some(list),
                    text_values(all.default_contracts@) == default_code_hashes(),
                    installs@.len() == i + 1,
                    installs@[0].code_hash@ == default_code_hashes()["acl_app"@],
                    installs@[0].init_args@.len() == 1,
                    installs@[0].init_args@[0]@ == community@,
                    installs_match(installs@, list@, i as int, default_code_hashes()),
                    apps_defined(list@, i as int, default_code_hashes()),
                decreases n - i,
            {
                let hash = match all.default_contracts.get(&list[i].app_name) {
                    Some(h) => h.clone(),
                    None => {
                        assert(!text_values(all.default_contracts@).contains_key(
                            list@[i as int].app_name@,
                        ));
                        return InstallPlan { installs, failure: Some(DaoError::AppNotDefined) };
                    },
                };
                assert(text_values(all.default_contracts@).contains_key(list@[i as int].app_name@));
                assert(text_values(all.default_contracts@)[list@[i as int].app_name@] == hash@);
                let ghost prev = installs@;
                installs.push(Install { code_hash: hash, init_args: copy_texts(&list[i].init_args) });
                proof {
                    lemma_installs_push(prev, list@, i as int, installs@[i + 1], default_code_hashes());
                    assert(installs@ =~= prev.push(installs@[i + 1]));
                }
                i = i + 1;
            }
            InstallPlan { installs, failure: None }
        },
    }
}

/// Whether an answer reports success: `Success`, or `success` as the apps and
/// the access control list answer.
pub open spec fn accepted(t: Seq<char>) -> bool {
    t == "Success"@ || t == "success"@
}

fn is_accepted(t: &String) -> (b: bool)
    ensures
        b == accepted(t@),
{
    same_text(t.as_str(), "Success") || same_text(t.as_str(), "success")
}

/// What an app's answer to its `init` call means.
pub open spec fn init_outcome(reply: Option<Seq<char>>) -> Result<(), DaoError> {
    match reply {
        None => Err(DaoError::CallReturnedNone),
        Some(t) => if accepted(t) {
            Ok(())
        } else {
            Err(DaoError::InitRejected)
        },
    }
}

/// What the access control list's answer to a `create_permission` call means:
/// `None` where it answered nothing, `Some(None)` where the answer is not text.
pub open spec fn permission_outcome_of(reply: Option<Option<Seq<char>>>) -> Result<(), DaoError> {
    match reply {
        None => Err(DaoError::PermissionNoResponse),
        Some(None) => Err(DaoError::PermissionReplyUnreadable),
        Some(Some(t)) => if accepted(t) {
            Ok(())
        } else {
            Err(DaoError::PermissionFailed)
        },
    }
}

/// An answer as values.
pub open spec fn reply_view(reply: Option<String>) -> Option<Seq<char>> {
    match reply {
        Some(t) => Some(t@),
        None => None,
    }
}

/// An answer that may not be text, as values.
pub open spec fn text_reply_view(reply: Option<Option<String>>) -> Option<Option<Seq<char>>> {
    match reply {
        Some(Some(t)) => Some(Some(t@)),
        Some(None) => Some(None),
        None => None,
    }
}

/// Judges an app's answer to its `init` call.
pub fn init_reply(reply: Option<&String>) -> (r: Result<(), DaoError>)
    ensures
        r == init_outcome(
            match reply {
                Some(t) => Some(t@),
                None => None,
            },
        ),
{
    match reply {
        None => Err(DaoError::CallReturnedNone),
        Some(t) => if is_accepted(t) {
            Ok(())
        } else {
            Err(DaoError::InitRejected)
        },
    }
}

/// Judges the access control list's answer to a `create_permission` call:
/// `None` where it answered nothing, `Some(None)` where the answer is not text.
pub fn permission_reply(reply: Option<Option<&String>>) -> (r: Result<(), DaoError>)
    ensures
        r == permission_outcome_of(
            match reply {
                Some(Some(t)) => Some(Some(t@)),
                Some(None) => Some(None),
                None => None,
            },
        ),
{
    match reply {
        None => Err(DaoError::PermissionNoResponse),
        Some(None) => Err(DaoError::PermissionReplyUnreadable),
        Some(Some(t)) => if is_accepted(t) {
            Ok(())
        } else {
            Err(DaoError::PermissionFailed)
        },
    }
}

/// The first failure among answers taken in order, if any.
pub open spec fn first_failure(outcomes: Seq<Result<(), DaoError>>) -> Option<DaoError>
    decreases outcomes.len(),
{
    if outcomes.len() == 0 {
        None
    } else {
        match first_failure(outcomes.drop_last()) {
            Some(e) => Some(e),
            None => match outcomes.last() {
                Err(e) => Some(e),
                Ok(()) => None,
            },
        }
    }
}

/// The next step while making a DAO.
pub enum Step {
    /// Make call number `i` of the plan next.
    Make(usize),
    /// Stop: making the DAO fails with this.
    Stop(DaoError),
    /// Every call is made and answered with success.
    Done,
}

/// What to do next, given the number of calls that a plan holds, the failure
/// that ends the plan, and the outcomes of the calls made so far: stop at the
/// first refused call, before any later one; else make the next call; else
/// end with the plan's failure, if any.
pub open spec fn step_spec(
    planned: nat,
    failure: Option<DaoError>,
    outcomes: Seq<Result<(), DaoError>>,
) -> Step {
    match first_failure(outcomes) {
        Some(e) => Step::Stop(e),
        None => if outcomes.len() < planned {
            Step::Make(outcomes.len() as usize)
        } else {
            match failure {
                Some(e) => Step::Stop(e),
                None => Step::Done,
            }
        },
    }
}

fn step_over(planned: usize, failure: &Option<DaoError>, outcomes: &Vec<Result<(), DaoError>>) -> (s: Step)
    requires
        outcomes@.len() <= planned,
    ensures
        s == step_spec(planned as nat, *failure, outcomes@),
{
    let n = outcomes.len();
    let mut i: usize = 0;
    while i < n
        invariant
            n == outcomes@.len(),
            i <= n,
            first_failure(outcomes@.subrange(0, i as int)) is None,
        decreases n - i,
    {
        proof {
            assert(outcomes@.subrange(0, i + 1).drop_last() =~= outcomes@.subrange(0, i as int));
        }
        match &outcomes[i] {
            Err(e) => {
                proof {
                    lemma_failure_stops(outcomes@, i as int + 1);
                }
                return Step::Stop(*e);
            },
            Ok(()) => {},
        }
        i = i + 1;
    }
    assert(outcomes@.subrange(0, n as int) =~= outcomes@);
    if n < planned {
        Step::Make(n)
    } else {
        match failure {
            Some(e) => Step::Stop(*e),
            None => Step::Done,
        }
    }
}

proof fn lemma_failure_stops(outcomes: Seq<Result<(), DaoError>>, k: int)
    requires
        0 <= k <= outcomes.len(),
        first_failure(outcomes.subrange(0, k)) is Some,
    ensures
        first_failure(outcomes) == first_failure(outcomes.subrange(0, k)),
    decreases outcomes.len() - k,
{
    if k < outcomes.len() {
        assert(outcomes.subrange(0, k + 1).drop_last() =~= outcomes.subrange(0, k));
        lemma_failure_stops(outcomes, k + 1);
    } else {
        assert(outcomes.subrange(0, k) =~= outcomes);
    }
}

/// The next install to make, given the answers of the `init` calls made so far,
/// in order.
pub fn next_install(plan: &InstallPlan, replies: &Vec<Option<String>>) -> (s: Step)
    requires
        replies@.len() <= plan.installs@.len(),
    ensures
        s == step_spec(
            plan.installs@.len(),
            plan.failure,
            replies@.map_values(|r: Option<String>| init_outcome(reply_view(r))),
        ),
{
    let mut outcomes: Vec<Result<(), DaoError>> = Vec::new();
    let n = replies.len();
    let mut i: usize = 0;
    while i < n
        invariant
            n == replies@.len(),
            i <= n,
            outcomes@ == replies@.subrange(0, i as int).map_values(
                |r: Option<String>| init_outcome(reply_view(r)),
            ),
        decreases n - i,
    {
        let o = init_reply(replies[i].as_ref());
        outcomes.push(o);
        proof {
            assert(outcomes@ =~= replies@.subrange(0, i + 1).map_values(
                |r: Option<String>| init_outcome(reply_view(r)),
            ));
        }
        i = i + 1;
    }
    assert(replies@.subrange(0, n as int) =~= replies@);
    step_over(plan.installs.len(), &plan.failure, &outcomes)
}

/// The next `create_permission` call to make, given the answers of the calls
/// made so far, in order.
pub fn next_permission_call(plan: &PermissionPlan, replies: &Vec<Option<Option<String>>>) -> (s: Step)
    requires
        replies@.len() <= plan.calls@.len(),
    ensures
        s == step_spec(
            plan.calls@.len(),
            plan.failure,
            replies@.map_values(|r: Option<Option<String>>| permission_outcome_of(text_reply_view(r))),
        ),
{
    let mut outcomes: Vec<Result<(), DaoError>> = Vec::new();
    let n = replies.len();
    let mut i: usize = 0;
    while i < n
        invariant
            n == replies@.len(),
            i <= n,
            outcomes@ == replies@.subrange(0, i as int).map_values(
                |r: Option<Option<String>>| permission_outcome_of(text_reply_view(r)),
            ),
        decreases n - i,
    {
        let o = permission_reply(
            match &replies[i] {
                Some(Some(t)) => Some(Some(t)),
                Some(None) => Some(None),
                None => None,
            },
        );
        outcomes.push(o);
        proof {
            assert(outcomes@ =~= replies@.subrange(0, i + 1).map_values(
                |r: Option<Option<String>>| permission_outcome_of(text_reply_view(r)),
            ));
        }
        i = i + 1;
    }
    assert(replies@.subrange(0, n as int) =~= replies@);
    step_over(plan.calls.len(), &plan.failure, &outcomes)
}

/// Making a DAO is done only where every call was answered with success.
pub proof fn law_done_means_all_accepted(
    planned: nat,
    failure: Option<DaoError>,
    outcomes: Seq<Result<(), DaoError>>,
)
    requires
        step_spec(planned, failure, outcomes) == Step::Done,
    ensures
        failure is None,
        outcomes.len() >= planned,
        forall|i: int| 0 <= i < outcomes.len() ==> #[trigger] outcomes[i] is Ok,
    decreases outcomes.len(),
{
    if outcomes.len() > 0 {
        lemma_no_failure_all_ok(outcomes);
    }
}

proof fn lemma_no_failure_all_ok(outcomes: Seq<Result<(), DaoError>>)
    requires
        first_failure(outcomes) is None,
    ensures
        forall|i: int| 0 <= i < outcomes.len() ==> #[trigger] outcomes[i] is Ok,
    decreases outcomes.len(),
{
    if outcomes.len() > 0 {
        lemma_no_failure_all_ok(outcomes.drop_last());
        assert forall|i: int| 0 <= i < outcomes.len() implies #[trigger] outcomes[i] is Ok by {
            if i < outcomes.len() - 1 {
                assert(outcomes[i] == outcomes.drop_last()[i]);
            } else {
                assert(first_failure(outcomes.drop_last()) is None);
                assert(outcomes.last() is Ok);
                assert(outcomes[i] == outcomes.last());
            }
        }
    }
}

/// The installed apps, by name: the community, the access control list, then
/// each app in order (a later app of the same name wins).
pub open spec fn installed_map(
    community: Seq<char>,
    acl: Seq<char>,
    names: Seq<Seq<char>>,
    addrs: Seq<Seq<char>>,
) -> Map<Seq<char>, Seq<char>>
    decreases names.len(),
{
    if names.len() == 0 {
        map!["community_app"@ => community].insert("acl_app"@, acl)
    } else {
        installed_map(community, acl, names.drop_last(), addrs).insert(
            names.last(),
            addrs[names.len() - 1],
        )
    }
}

/// The table of installed apps names the community, the access control list
/// and every app, and each app's entry holds the address of the last app of
/// that name; the community's and the list's entries hold their addresses where
/// no app takes their names.
pub proof fn law_installed_apps_named(
    community: Seq<char>,
    acl: Seq<char>,
    names: Seq<Seq<char>>,
    addrs: Seq<Seq<char>>,
)
    requires
        names.len() <= addrs.len(),
    ensures
        forall|k: Seq<char>|
            #[trigger] installed_map(community, acl, names, addrs).contains_key(k) <==> (k
                == "community_app"@ || k == "acl_app"@ || names.contains(k)),
        forall|i: int|
            0 <= i < names.len() && (forall|j: int| i < j < names.len() ==> names[j] != names[i])
                ==> installed_map(community, acl, names, addrs)[#[trigger] names[i]] == addrs[i],
        !names.contains("community_app"@) ==> installed_map(community, acl, names, addrs)[
            "community_app"@] == community,
        !names.contains("acl_app"@) ==> installed_map(community, acl, names, addrs)["acl_app"@]
            == acl,
{
    assert forall|k: Seq<char>|
        #[trigger] installed_map(community, acl, names, addrs).contains_key(k) <==> (k
            == "community_app"@ || k == "acl_app"@ || names.contains(k)) by {
        lemma_installed_dom(community, acl, names, addrs, k);
    }
    assert forall|i: int|
        0 <= i < names.len() && (forall|j: int| i < j < names.len() ==> names[j] != names[i])
            implies installed_map(community, acl, names, addrs)[#[trigger] names[i]] == addrs[i] by {
        lemma_installed_last(community, acl, names, addrs, i);
    }
    reveal_strlit("community_app");
    reveal_strlit("acl_app");
    assert("community_app"@.len() != "acl_app"@.len());
    if !names.contains("community_app"@) {
        lemma_installed_fixed(community, acl, names, addrs, "community_app"@);
    }
    if !names.contains("acl_app"@) {
        lemma_installed_fixed(community, acl, names, addrs, "acl_app"@);
    }
}

proof fn lemma_installed_dom(
    community: Seq<char>,
    acl: Seq<char>,
    names: Seq<Seq<char>>,
    addrs: Seq<Seq<char>>,
    k: Seq<char>,
)
    ensures
        installed_map(community, acl, names, addrs).contains_key(k) <==> (k == "community_app"@
            || k == "acl_app"@ || names.contains(k)),
    decreases names.len(),
{
    if names.len() > 0 {
        let d = names.drop_last();
        lemma_installed_dom(community, acl, d, addrs, k);
        if d.contains(k) {
            let j = choose|j: int| 0 <= j < d.len() && d[j] == k;
            assert(names[j] == k);
        }
        if names.contains(k) && k != names.last() {
            let j = choose|j: int| 0 <= j < names.len() && names[j] == k;
            assert(d[j] == k);
        }
        if k == names.last() {
            assert(names[names.len() - 1] == k);
        }
    }
}

proof fn lemma_installed_last(
    community: Seq<char>,
    acl: Seq<char>,
    names: Seq<Seq<char>>,
    addrs: Seq<Seq<char>>,
    i: int,
)
    requires
        names.len() <= addrs.len(),
        0 <= i < names.len(),
        forall|j: int| i < j < names.len() ==> names[j] != names[i],
    ensures
        installed_map(community, acl, names, addrs)[names[i]] == addrs[i],
    decreases names.len(),
{
    if i < names.len() - 1 {
        let d = names.drop_last();
        assert(names[names.len() - 1] != names[i]);
        assert(d[i] == names[i]);
        assert forall|j: int| i < j < d.len() implies d[j] != d[i] by {
            assert(names[j] != names[i]);
        }
        lemma_installed_last(community, acl, d, addrs, i);
    }
}

proof fn lemma_installed_fixed(
    community: Seq<char>,
    acl: Seq<char>,
    names: Seq<Seq<char>>,
    addrs: Seq<Seq<char>>,
    k: Seq<char>,
)
    requires
        k == "community_app"@ || k == "acl_app"@,
        !names.contains(k),
    ensures
        installed_map(community, acl, names, addrs)[k] == if k == "acl_app"@ {
            acl
        } else {
            community
        },
    decreases names.len(),
{
    if names.len() > 0 {
        let d = names.drop_last();
        assert(names[names.len() - 1] != k);
        assert(!d.contains(k)) by {
            if d.contains(k) {
                let j = choose|j: int| 0 <= j < d.len() && d[j] == k;
                assert(names[j] == k);
            }
        }
        lemma_installed_fixed(community, acl, d, addrs, k);
    } else {
        reveal_strlit("community_app");
        reveal_strlit("acl_app");
        assert("community_app"@.len() != "acl_app"@.len());
    }
}

/// The values of a text map, as text.
pub open spec fn text_values(m: Map<Seq<char>, String>) -> Map<Seq<char>, Seq<char>> {
    m.map_values(|v: String| v@)
}

/// The names of the apps to install.
pub open spec fn app_names(apps: Seq<ContractArgs>) -> Seq<Seq<char>> {
    apps.map_values(|a: ContractArgs| a.app_name@)
}

/// The table of installed apps, from the addresses that their creation gave:
/// `addrs[i]` is the address of `apps[i]`.
pub fn installed_apps(
    community: &str,
    acl: &str,
    apps: &Vec<ContractArgs>,
    addrs: &Vec<String>,
) -> (m: StrMap<String>)
    requires
        addrs@.len() == apps@.len(),
    ensures
        text_values(m@) == installed_map(
            community@,
            acl@,
            app_names(apps@),
            addrs@.map_values(|a: String| a@),
        ),
{
    let mut m: StrMap<String> = StrMap::new();
    m.insert(String::from_str("community_app"), community.to_owned());
    m.insert(String::from_str("acl_app"), acl.to_owned());
    let ghost names = app_names(apps@);
    let ghost avs = addrs@.map_values(|a: String| a@);
    proof {
        assert(text_values(m@) =~= installed_map(community@, acl@, names.subrange(0, 0), avs));
    }
    let n = apps.len();
    let mut i: usize = 0;
    while i < n
        invariant
            n == apps@.len(),
            addrs@.len() == n,
            i <= n,
            names == app_names(apps@),
            avs == addrs@.map_values(|a: String| a@),
            text_values(m@) == installed_map(community@, acl@, names.subrange(0, i as int), avs),
        decreases n - i,
    {
        m.insert(apps[i].app_name.clone(), addrs[i].clone());
        proof {
            assert(names.subrange(0, i + 1).drop_last() =~= names.subrange(0, i as int));
            assert(names.subrange(0, i + 1).last() == apps@[i as int].app_name@);
            assert(text_values(m@) =~= installed_map(
                community@,
                acl@,
                names.subrange(0, i + 1),
                avs,
            ));
        }
        i = i + 1;
    }
    proof {
        assert(names.subrange(0, n as int) =~= names);
    }
    m
}

/// A `create_permission` call to make on the access control list, with every
/// app named by its installed address.
pub struct PermissionCall {
    pub who: String,
    pub what: String,
    pub action: String,
    pub manager: String,
}

impl View for PermissionCall {
    type V = PermissionView;

    open spec fn view(&self) -> PermissionView {
        PermissionView {
            who: self.who@,
            what: self.what@,
            action: self.action@,
            manager: self.manager@,
        }
    }
}

/// The `create_permission` calls to make, in order, and the failure that
/// follows them, if any.
pub struct PermissionPlan {
    pub calls: Vec<PermissionCall>,
    pub failure: Option<DaoError>,
}

/// The calls that a list of permissions resolves to, up to the first that names
/// an app not installed; and whether all of them resolve.
pub open spec fn resolve_list(
    perms: Seq<PermissionView>,
    installed: Map<Seq<char>, Seq<char>>,
) -> (Seq<PermissionView>, bool)
    decreases perms.len(),
{
    if perms.len() == 0 {
        (Seq::empty(), true)
    } else {
        let (cs, ok) = resolve_list(perms.drop_last(), installed);
        let p = perms.last();
        if !ok {
            (cs, false)
        } else if installed.contains_key(p.who) && installed.contains_key(p.what)
            && installed.contains_key(p.manager) {
            (
                cs.push(
                    PermissionView {
                        who: installed[p.who],
                        what: installed[p.what],
                        action: p.action,
                        manager: installed[p.manager],
                    },
                ),
                true,
            )
        } else {
            (cs, false)
        }
    }
}

/// The calls that granting the default permissions of the named apps makes, in
/// order (an app with no permissions listed grants none), and the failure that
/// stops them: a permission that names an app not installed.
pub open spec fn plan_calls(
    names: Seq<Seq<char>>,
    table: Map<Seq<char>, Seq<PermissionView>>,
    installed: Map<Seq<char>, Seq<char>>,
) -> (Seq<PermissionView>, Option<DaoError>)
    decreases names.len(),
{
    if names.len() == 0 {
        (Seq::empty(), None)
    } else {
        let (cs, err) = plan_calls(names.drop_last(), table, installed);
        if err is Some {
            (cs, err)
        } else if !table.contains_key(names.last()) {
            (cs, None)
        } else {
            let (more, ok) = resolve_list(table[names.last()], installed);
            (
                cs + more,
                if ok {
                    None
                } else {
                    Some(DaoError::AppNotInstalled)
                },
            )
        }
    }
}

/// The default permissions, by app name, as values.
pub open spec fn permission_table(all: AllContracts) -> Map<Seq<char>, Seq<PermissionView>> {
    all.default_permissions@.map_values(|l: Vec<AllPermission>| permission_views(l@))
}

/// The calls' values.
pub open spec fn call_views(calls: Seq<PermissionCall>) -> Seq<PermissionView> {
    calls.map_values(|c: PermissionCall| c@)
}

/// The apps whose default permissions a DAO grants, in order: the access
/// control list, which is always installed, then the apps installed after it.
pub open spec fn granting_apps(apps: Seq<ContractArgs>) -> Seq<Seq<char>> {
    seq!["acl_app"@] + app_names(apps)
}

/// Adds the calls that grant the default permissions of the app `name`; `false`
/// where one of them names an app not installed (the calls before it are added).
fn add_app_calls(
    all: &AllContracts,
    installed: &StrMap<String>,
    name: &String,
    calls: &mut Vec<PermissionCall>,
) -> (ok: bool)
    ensures
        ({
            let table = permission_table(*all);
            let inst = text_values(installed@);
            let (more, all_ok) = if table.contains_key(name@) {
                resolve_list(table[name@], inst)
            } else {
                (Seq::<PermissionView>::empty(), true)
            };
            &&& call_views(final(calls)@) == call_views(old(calls)@) + more
            &&& ok == all_ok
        }),
{
    let ghost table = permission_table(*all);
    let ghost inst = text_values(installed@);
    let ghost before = call_views(calls@);
    let list = match all.default_permissions.get(name) {
        Some(l) => l,
        None => {
            assert(!table.contains_key(name@));
            assert(call_views(calls@) =~= before + Seq::<PermissionView>::empty());
            return true;
        },
    };
    let ghost pl = permission_views(list@);
    assert(table.contains_key(name@));
    assert(table[name@] == pl);
    let m = list.len();
    let mut j: usize = 0;
    proof {
        assert(pl.subrange(0, 0) =~= Seq::<PermissionView>::empty());
        assert(call_views(calls@) =~= before + Seq::<PermissionView>::empty());
    }
    while j < m
        invariant
            m == list@.len(),
            j <= m,
            table == permission_table(*all),
            table.contains_key(name@),
            table[name@] == pl,
            pl == permission_views(list@),
            inst == text_values(installed@),
            before == call_views(old(calls)@),
            resolve_list(pl.subrange(0, j as int), inst).1,
            call_views(calls@) == before + resolve_list(pl.subrange(0, j as int), inst).0,
        decreases m - j,
    {
        proof {
            assert(pl.subrange(0, j + 1).drop_last() =~= pl.subrange(0, j as int));
            assert(pl.subrange(0, j + 1).last() == list@[j as int]@);
        }
        let p = &list[j];
        let who = installed.get(&p.who);
        let what = installed.get(&p.what);
        let manager = installed.get(&p.manager);
        if who.is_none() || what.is_none() || manager.is_none() {
            proof {
                assert(!resolve_list(pl.subrange(0, j + 1), inst).1);
                lemma_resolve_fails_on(pl, inst, j as int + 1);
            }
            return false;
        }
        let call = PermissionCall {
            who: who.unwrap().clone(),
            what: what.unwrap().clone(),
            action: p.action.clone(),
            manager: manager.unwrap().clone(),
        };
        proof {
            let pv = list@[j as int]@;
            assert(inst[pv.who] == installed@[pv.who]@);
            assert(inst[pv.what] == installed@[pv.what]@);
            assert(inst[pv.manager] == installed@[pv.manager]@);
        }
        let ghost cv = call@;
        let ghost prev_calls = calls@;
        calls.push(call);
        proof {
            assert(call_views(calls@) =~= call_views(prev_calls).push(cv));
            assert(call_views(calls@) =~= before + resolve_list(pl.subrange(0, j + 1), inst).0);
        }
        j = j + 1;
    }
    proof {
        assert(pl.subrange(0, m as int) =~= pl);
    }
    true
}

/// Plans granting the default permissions of the access control list and of
/// the installed apps, app by app in the order they were installed.
pub fn permission_calls(
    all: &AllContracts,
    installed: &StrMap<String>,
    apps: &Vec<ContractArgs>,
) -> (plan: PermissionPlan)
    ensures
        (call_views(plan.calls@), plan.failure) == plan_calls(
            granting_apps(apps@),
            permission_table(*all),
            text_values(installed@),
        ),
{
    let ghost names = granting_apps(apps@);
    let ghost table = permission_table(*all);
    let ghost inst = text_values(installed@);
    let mut calls: Vec<PermissionCall> = Vec::new();
    let n = apps.len();
    let acl = String::from_str("acl_app");
    proof {
        assert(names.subrange(0, 0) =~= Seq::<Seq<char>>::empty());
        assert(call_views(calls@) =~= Seq::<PermissionView>::empty());
        assert(names.subrange(0, 1).drop_last() =~= names.subrange(0, 0));
        assert(names.subrange(0, 1).last() == acl@);
    }
    let ok = add_app_calls(all, installed, &acl, &mut calls);
    proof {
        assert(plan_calls(names.subrange(0, 0), table, inst) == (
            Seq::<PermissionView>::empty(),
            None::<DaoError>,
        ));
        assert(call_views(calls@) == Seq::<PermissionView>::empty() + (if table.contains_key(
            acl@,
        ) {
            resolve_list(table[acl@], inst)
        } else {
            (Seq::<PermissionView>::empty(), true)
        }).0);
    }
    if !ok {
        proof {
            lemma_plan_stops(names, table, inst, 1);
        }
        return PermissionPlan { calls, failure: Some(DaoError::AppNotInstalled) };
    }
    let mut i: usize = 0;
    while i < n
        invariant
            n == apps@.len(),
            i <= n,
            names == granting_apps(apps@),
            names.len() == n + 1,
            table == permission_table(*all),
            inst == text_values(installed@),
            (call_views(calls@), None::<DaoError>) == plan_calls(
                names.subrange(0, i + 1),
                table,
                inst,
            ),
        decreases n - i,
    {
        proof {
            assert(names.subrange(0, i + 2).drop_last() =~= names.subrange(0, i + 1));
            assert(names.subrange(0, i + 2).last() == apps@[i as int].app_name@);
        }
        if !add_app_calls(all, installed, &apps[i].app_name, &mut calls) {
            proof {
                lemma_plan_stops(names, table, inst, i as int + 2);
            }
            return PermissionPlan { calls, failure: Some(DaoError::AppNotInstalled) };
        }
        i = i + 1;
    }
    proof {
        assert(names.subrange(0, n + 1) =~= names);
    }
    PermissionPlan { calls, failure: None }
}

proof fn lemma_resolve_fails_on(
    perms: Seq<PermissionView>,
    installed: Map<Seq<char>, Seq<char>>,
    k: int,
)
    requires
        0 <= k <= perms.len(),
        !resolve_list(perms.subrange(0, k), installed).1,
    ensures
        !resolve_list(perms, installed).1,
        resolve_list(perms, installed).0 == resolve_list(perms.subrange(0, k), installed).0,
    decreases perms.len() - k,
{
    if k < perms.len() {
        assert(perms.subrange(0, k + 1).drop_last() =~= perms.subrange(0, k));
        lemma_resolve_fails_on(perms, installed, k + 1);
    } else {
        assert(perms.subrange(0, k) =~= perms);
    }
}

proof fn lemma_plan_stops(
    names: Seq<Seq<char>>,
    table: Map<Seq<char>, Seq<PermissionView>>,
    installed: Map<Seq<char>, Seq<char>>,
    k: int,
)
    requires
        0 <= k <= names.len(),
        plan_calls(names.subrange(0, k), table, installed).1 is Some,
    ensures
        plan_calls(names, table, installed) == plan_calls(names.subrange(0, k), table, installed),
    decreases names.len() - k,
{
    if k < names.len() {
        assert(names.subrange(0, k + 1).drop_last() =~= names.subrange(0, k));
        lemma_plan_stops(names, table, installed, k + 1);
    } else {
        assert(names.subrange(0, k) =~= names);
    }
}

} // verus!

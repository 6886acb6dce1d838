//! The token app: balances, total supply and the list of holders.
//!
//! Balances are kept under the address text that the call names, lower-cased,
//! the genesis accounts' too.
use crate::strmap::StrMap;
use crate::text::addr_to_lower;
use crate::text::ascii_lower;
use crate::text::decimal_text;
use crate::text::parses_as_u128;
use crate::text::parses_as_u64;
use crate::text::try_parse_u64;
use crate::text::same_text;
use crate::text::try_parse_u128;
use crate::text::u128_to_text;
use crate::text::unsigned_value;
use vstd::prelude::*;

verus! {

/// The balance kept under a key; an address with no entry holds nothing.
pub open spec fn balance_of(balances: Map<Seq<char>, u128>, key: Seq<char>) -> u128 {
    if balances.contains_key(key) {
        balances[key]
    } else {
        0
    }
}

/// The sum of the amounts of genesis accounts.
pub open spec fn genesis_sum(accounts: Seq<(String, String)>) -> nat
    decreases accounts.len(),
{
    if accounts.len() == 0 {
        0
    } else {
        genesis_sum(accounts.drop_last()) + unsigned_value(accounts.last().1@)
    }
}

/// The balances after the genesis accounts are credited in order, each under
/// its address in lower case (a later account of the same address wins).
pub open spec fn credit_map(balances: Map<Seq<char>, u128>, accounts: Seq<(String, String)>) -> Map<
    Seq<char>,
    u128,
>
    decreases accounts.len(),
{
    if accounts.len() == 0 {
        balances
    } else {
        credit_map(balances, accounts.drop_last()).insert(
            ascii_lower(accounts.last().0@),
            unsigned_value(accounts.last().1@) as u128,
        )
    }
}

/// The holders after the genesis accounts join them.
pub open spec fn credit_holders(holders: Map<Seq<char>, ()>, accounts: Seq<(String, String)>) -> Map<
    Seq<char>,
    (),
>
    decreases accounts.len(),
{
    if accounts.len() == 0 {
        holders
    } else {
        credit_holders(holders, accounts.drop_last()).insert(ascii_lower(accounts.last().0@), ())
    }
}

/// The ledger after the genesis accounts are credited: the supply becomes
/// their sum, and nothing but balances, holders and supply changes.
pub open spec fn genesis_done(pre: TokenLedger, post: TokenLedger, accounts: Seq<(String, String)>) -> bool {
    &&& post.total == genesis_sum(accounts)
    &&& post.balances@ == credit_map(pre.balances@, accounts)
    &&& post.holders@ == credit_holders(pre.holders@, accounts)
    &&& post.acl_app == pre.acl_app
    &&& post.community_app == pre.community_app
}

/// The supply after the genesis accounts are checked in order from `total`, or
/// the abort of the first that fails: an amount that is no `u128` in decimal,
/// or one that takes the supply beyond `u128`.
pub open spec fn genesis_check(accounts: Seq<(String, String)>, total: nat) -> Result<nat, TokenError>
    decreases accounts.len(),
{
    if accounts.len() == 0 {
        Ok(total)
    } else {
        match genesis_check(accounts.drop_last(), total) {
            Err(e) => Err(e),
            Ok(s) => if !parses_as_u128(accounts.last().1@) {
                Err(TokenError::AbortInvalidNumber)
            } else if s + unsigned_value(accounts.last().1@) > u128::MAX {
                Err(TokenError::AbortOverflow)
            } else {
                Ok(s + unsigned_value(accounts.last().1@))
            },
        }
    }
}

proof fn lemma_check_stops(accounts: Seq<(String, String)>, total: nat, k: int)
    requires
        0 <= k <= accounts.len(),
        genesis_check(accounts.subrange(0, k), total) is Err,
    ensures
        genesis_check(accounts, total) == genesis_check(accounts.subrange(0, k), total),
    decreases accounts.len() - k,
{
    if k < accounts.len() {
        assert(accounts.subrange(0, k + 1).drop_last() =~= accounts.subrange(0, k));
        lemma_check_stops(accounts, total, k + 1);
    } else {
        assert(accounts.subrange(0, k) =~= accounts);
    }
}

/// The genesis accounts that the token's `init` arguments list after the name
/// and the symbol: a count, then that many address and amount pairs.
pub open spec fn listed_accounts(args: Seq<String>) -> Option<Seq<(String, String)>> {
    if args.len() >= 3 && parses_as_u64(args[2]@) && 3 + 2 * unsigned_value(args[2]@) <= args.len() {
        Some(Seq::new(unsigned_value(args[2]@), |i: int| (args[3 + 2 * i], args[4 + 2 * i])))
    } else {
        None
    }
}

/// Reads the genesis accounts from the token's `init` arguments.
pub fn genesis_accounts(args: &Vec<String>) -> (r: Option<Vec<(String, String)>>)
    ensures
        match listed_accounts(args@) {
            None => r is None,
            Some(l) => r matches Some(v) && v@ == l,
        },
{
    if args.len() < 3 {
        return None;
    }
    let n = match try_parse_u64(args[2].as_str()) {
        Some(n) => n,
        None => {
            return None;
        },
    };
    let room: usize = (args.len() - 3) / 2;
    if (room as u64) < n {
        return None;
    }
    let count: usize = n as usize;
    let total_len: usize = args.len();
    assert(3 + 2 * count <= total_len);
    let ghost want = Seq::new(n as nat, |i: int| (args@[3 + 2 * i], args@[4 + 2 * i]));
    let mut v: Vec<(String, String)> = Vec::new();
    let mut i: usize = 0;
    while i < count
        invariant
            count == n,
            total_len == args@.len(),
            3 + 2 * count <= args@.len(),
            i <= count,
            want == Seq::new(n as nat, |j: int| (args@[3 + 2 * j], args@[4 + 2 * j])),
            v@ == want.subrange(0, i as int),
        decreases count - i,
    {
        v.push((args[3 + 2 * i].clone(), args[4 + 2 * i].clone()));
        proof {
            assert(v@ =~= want.subrange(0, i + 1));
        }
        i = i + 1;
    }
    assert(v@ =~= want);
    Some(v)
}

/// The ledger after `amount` is minted to `rec`.
pub open spec fn minted(pre: TokenLedger, post: TokenLedger, rec: Seq<char>, amount: u128) -> bool {
    let k = ascii_lower(rec);
    &&& post.balances@ == pre.balances@.insert(k, (balance_of(pre.balances@, k) + amount) as u128)
    &&& post.total == pre.total + amount
    &&& post.holders@ == pre.holders@.insert(k, ())
    &&& post.name == pre.name
    &&& post.symbol == pre.symbol
    &&& post.acl_app == pre.acl_app
    &&& post.community_app == pre.community_app
}

/// The ledger after `amount` is burnt from `rec`.
pub open spec fn burnt(pre: TokenLedger, post: TokenLedger, rec: Seq<char>, amount: u128) -> bool {
    let k = ascii_lower(rec);
    &&& post.balances@ == pre.balances@.insert(k, (balance_of(pre.balances@, k) - amount) as u128)
    &&& post.total == pre.total - amount
    &&& post.holders == pre.holders
    &&& post.name == pre.name
    &&& post.symbol == pre.symbol
    &&& post.acl_app == pre.acl_app
    &&& post.community_app == pre.community_app
}

/// The recipient's balance after a transfer: its balance, read after the
/// sender's was lowered, plus the amount (for a transfer to oneself, the
/// sender's balance as it was).
pub open spec fn transfer_credit(
    balances: Map<Seq<char>, u128>,
    from: Seq<char>,
    to: Seq<char>,
    amount: u128,
) -> int {
    let f = ascii_lower(from);
    let t = ascii_lower(to);
    if f == t {
        balance_of(balances, f) as int
    } else {
        balance_of(balances, t) + amount
    }
}

/// The ledger after a transfer that the sender's balance covers: the amount
/// leaves the sender and reaches the recipient, who joins the holders.
pub open spec fn transferred(
    pre: TokenLedger,
    post: TokenLedger,
    from: Seq<char>,
    to: Seq<char>,
    amount: u128,
) -> bool {
    let f = ascii_lower(from);
    let t = ascii_lower(to);
    &&& post.balances@ == pre.balances@.insert(f, (balance_of(pre.balances@, f) - amount) as u128).insert(
        t,
        transfer_credit(pre.balances@, from, to, amount) as u128,
    )
    &&& post.holders@ == pre.holders@.insert(t, ())
    &&& post.total == pre.total
    &&& post.name == pre.name
    &&& post.symbol == pre.symbol
    &&& post.acl_app == pre.acl_app
    &&& post.community_app == pre.community_app
}

/// The stored state of the token app.
pub struct TokenLedger {
    /// The token's name; empty until set.
    pub name: String,
    /// The token's symbol; empty until set.
    pub symbol: String,
    /// The total supply.
    pub total: u128,
    /// Balances, by address key.
    pub balances: StrMap<u128>,
    /// The addresses that have held the token.
    pub holders: StrMap<()>,
    /// The access control list's address; empty until set.
    pub acl_app: String,
    /// The community's address; empty until set.
    pub community_app: String,
}

/// Why a call of the token app is refused.
#[derive(PartialEq, Eq, Structural)]
pub enum TokenError {
    /// The system contracts are set already.
    AlreadyInitialized,
    /// The genesis accounts are not a list of accounts.
    InvalidAccount,
    /// The sender's balance is below the amount.
    InsufficientBalance,
    /// No access control list is set.
    AclMissing,
    /// The call of the access control list came back empty.
    CallFailed,
    /// The access control list did not answer `true`.
    NoPermission,
    /// The community did not answer for the vote app.
    VoteAppLookupFailed,
    /// The method is unknown.
    MethodNotFound,
    /// An amount is not a `u128` written in decimal: the contract call aborts.
    AbortInvalidNumber,
    /// An amount leaves the range of `u128`: the contract call aborts.
    AbortOverflow,
}

/// The text that the contract returns for each refusal.
pub open spec fn token_error_text(e: TokenError) -> Seq<char> {
    match e {
        TokenError::AlreadyInitialized => "It's already initialized"@,
        TokenError::InvalidAccount => "error, invalid account"@,
        TokenError::InsufficientBalance => "Insufficient from balance"@,
        TokenError::AclMissing => "acl_addr is empty"@,
        TokenError::CallFailed => "call contract error"@,
        TokenError::NoPermission => "no permissions"@,
        TokenError::VoteAppLookupFailed => "call contract error, return none"@,
        TokenError::MethodNotFound => "invoke method not found"@,
        TokenError::AbortInvalidNumber => "invalid number"@,
        TokenError::AbortOverflow => "arithmetic overflow"@,
    }
}

impl TokenError {
    /// The text that the contract returns for this refusal.
    pub fn message(&self) -> (t: String)
        ensures
            t@ == token_error_text(*self),
    {
        match self {
            TokenError::AlreadyInitialized => String::from_str("It's already initialized"),
            TokenError::InvalidAccount => String::from_str("error, invalid account"),
            TokenError::InsufficientBalance => String::from_str("Insufficient from balance"),
            TokenError::AclMissing => String::from_str("acl_addr is empty"),
            TokenError::CallFailed => String::from_str("call contract error"),
            TokenError::NoPermission => String::from_str("no permissions"),
            TokenError::VoteAppLookupFailed => String::from_str("call contract error, return none"),
            TokenError::MethodNotFound => String::from_str("invoke method not found"),
            TokenError::AbortInvalidNumber => String::from_str("invalid number"),
            TokenError::AbortOverflow => String::from_str("arithmetic overflow"),
        }
    }

    /// Whether the contract aborts here rather than returning an error.
    pub fn aborts(&self) -> (b: bool)
        ensures
            b == (*self == TokenError::AbortInvalidNumber || *self == TokenError::AbortOverflow),
    {
        match self {
            TokenError::AbortInvalidNumber => true,
            TokenError::AbortOverflow => true,
            _ => false,
        }
    }
}

/// The permissions that the token app asks for when installed: the vote app may
/// mint and burn, and anyone may transfer.
pub fn default_permissions(vote_app: Option<String>, any_entity: &str) -> (r: Result<
    Vec<(String, String)>,
    TokenError,
>)
    ensures
        match vote_app {
            None => r == Err::<Vec<(String, String)>, TokenError>(TokenError::VoteAppLookupFailed),
            Some(v) => r matches Ok(list) && list@.len() == 3 && list@[0].0@ == "token.mint"@
                && list@[0].1@ == v@ && list@[1].0@ == "token.burn"@ && list@[1].1@ == v@
                && list@[2].0@ == "token.transfer"@ && list@[2].1@ == any_entity@,
        },
{
    match vote_app {
        None => Err(TokenError::VoteAppLookupFailed),
        Some(v) => {
            let mut list: Vec<(String, String)> = Vec::new();
            list.push((String::from_str("token.mint"), v.clone()));
            list.push((String::from_str("token.burn"), v));
            list.push((String::from_str("token.transfer"), any_entity.to_owned()));
            Ok(list)
        },
    }
}

impl TokenLedger {
    /// A ledger with nothing set.
    pub fn new() -> (l: Self)
        ensures
            l.name@ == Seq::<char>::empty(),
            l.symbol@ == Seq::<char>::empty(),
            l.total == 0,
            l.balances@ == Map::<Seq<char>, u128>::empty(),
            l.holders@ == Map::<Seq<char>, ()>::empty(),
            l.acl_app@ == Seq::<char>::empty(),
            l.community_app@ == Seq::<char>::empty(),
    {
        TokenLedger {
            name: String::new(),
            symbol: String::new(),
            total: 0,
            balances: StrMap::new(),
            holders: StrMap::new(),
            acl_app: String::new(),
            community_app: String::new(),
        }
    }

    /// Records the access control list and the community; refused once either is set.
    pub fn set_system_contract(&mut self, acl_app: &str, community_app: &str) -> (r: Result<
        (),
        TokenError,
    >)
        ensures
            if old(self).acl_app@.len() != 0 || old(self).community_app@.len() != 0 {
                r == Err::<(), TokenError>(TokenError::AlreadyInitialized) && *final(self) == *old(
                    self,
                )
            } else {
                &&& r == Ok::<(), TokenError>(())
                &&& final(self).acl_app@ == acl_app@
                &&& final(self).community_app@ == community_app@
                &&& final(self).balances == old(self).balances
                &&& final(self).holders == old(self).holders
                &&& final(self).total == old(self).total
                &&& final(self).name == old(self).name
                &&& final(self).symbol == old(self).symbol
            },
    {
        if self.acl_app.unicode_len() != 0 || self.community_app.unicode_len() != 0 {
            return Err(TokenError::AlreadyInitialized);
        }
        self.acl_app = acl_app.to_owned();
        self.community_app = community_app.to_owned();
        Ok(())
    }

    /// The balance of an address, looked up in lower case.
    pub fn read_balance(&self, addr: &str) -> (b: u128)
        ensures
            b == balance_of(self.balances@, ascii_lower(addr@)),
    {
        let key = addr_to_lower(addr);
        match self.balances.get(&key) {
            Some(b) => *b,
            None => 0,
        }
    }

    /// Adds an address to the holder list.
    pub fn add_to_holder_list(&mut self, addr: String)
        ensures
            final(self).holders@ == old(self).holders@.insert(addr@, ()),
            final(self).balances == old(self).balances,
            final(self).total == old(self).total,
            final(self).name == old(self).name,
            final(self).symbol == old(self).symbol,
            final(self).acl_app == old(self).acl_app,
            final(self).community_app == old(self).community_app,
    {
        self.holders.insert(addr, ());
    }

    /// Sets the name and symbol and credits the genesis accounts, each under its
    /// address in lower case; the total supply becomes the sum of the amounts.
    pub fn genesis(&mut self, name: &str, symbol: &str, accounts: &Vec<(String, String)>)
        requires
            forall|i: int| 0 <= i < accounts@.len() ==> parses_as_u128(#[trigger] accounts@[i].1@),
            genesis_sum(accounts@) <= u128::MAX,
        ensures
            final(self).name@ == name@,
            final(self).symbol@ == symbol@,
            genesis_done(*old(self), *final(self), accounts@),
    {
        let n = accounts.len();
        let mut i: usize = 0;
        self.total = 0;
        while i < n
            invariant
                n == accounts@.len(),
                i <= n,
                forall|j: int|
                    0 <= j < accounts@.len() ==> parses_as_u128(#[trigger] accounts@[j].1@),
                genesis_sum(accounts@) <= u128::MAX,
                self.total == genesis_sum(accounts@.subrange(0, i as int)),
                self.balances@ == credit_map(old(self).balances@, accounts@.subrange(0, i as int)),
                self.holders@ == credit_holders(old(self).holders@, accounts@.subrange(0, i as int)),
                self.name == old(self).name,
                self.symbol == old(self).symbol,
                self.acl_app == old(self).acl_app,
                self.community_app == old(self).community_app,
            decreases n - i,
        {
            let amount = crate::text::parse_u128(accounts[i].1.as_str());
            let key = addr_to_lower(accounts[i].0.as_str());
            let ghost pre = accounts@.subrange(0, i as int);
            let ghost post = accounts@.subrange(0, i + 1);
            proof {
                lemma_genesis_sum_prefix(accounts@, i as int + 1);
                assert(post.drop_last() =~= pre);
                assert(post.last() == accounts@[i as int]);
            }
            self.balances.insert(key.clone(), amount);
            self.holders.insert(key, ());
            self.total = self.total + amount;
            i = i + 1;
        }
        assert(accounts@.subrange(0, n as int) =~= accounts@);
        self.name = name.to_owned();
        self.symbol = symbol.to_owned();
    }

    /// Sets the token up from the name, the symbol and the genesis accounts
    /// (`None` where the arguments hold no list of accounts). The accounts are
    /// taken in order: the first amount that is no `u128` in decimal, or that
    /// takes the supply beyond `u128`, aborts the call.
    pub fn init_ledger(
        &mut self,
        name: &str,
        symbol: &str,
        accounts: Option<&Vec<(String, String)>>,
    ) -> (r: Result<(), TokenError>)
        ensures
            accounts is None ==> r == Err::<(), TokenError>(TokenError::InvalidAccount)
                && *final(self) == *old(self),
            accounts matches Some(list) ==> match genesis_check(list@, 0) {
                Err(e) => r == Err::<(), TokenError>(e) && *final(self) == *old(self),
                Ok(t) => {
                    &&& r == Ok::<(), TokenError>(())
                    &&& final(self).name@ == name@
                    &&& final(self).symbol@ == symbol@
                    &&& t == genesis_sum(list@)
                    &&& genesis_done(*old(self), *final(self), list@)
                },
            },
    {
        let list = match accounts {
            None => {
                return Err(TokenError::InvalidAccount);
            },
            Some(l) => l,
        };
        let n = list.len();
        let mut sum: u128 = 0;
        let mut i: usize = 0;
        while i < n
            invariant
                n == list@.len(),
                i <= n,
                accounts == Some(list),
                *self == *old(self),
                forall|j: int| 0 <= j < i ==> parses_as_u128(#[trigger] list@[j].1@),
                sum == genesis_sum(list@.subrange(0, i as int)),
                genesis_check(list@.subrange(0, i as int), 0) == Ok::<
                    nat,
                    TokenError,
                >(sum as nat),
            decreases n - i,
        {
            let ghost pre = list@.subrange(0, i as int);
            let ghost post = list@.subrange(0, i + 1);
            proof {
                assert(post.drop_last() =~= pre);
                assert(post.last() == list@[i as int]);
            }
            let a = match try_parse_u128(list[i].1.as_str()) {
                Some(a) => a,
                None => {
                    proof {
                        lemma_check_stops(list@, 0, i as int + 1);
                    }
                    return Err(TokenError::AbortInvalidNumber);
                },
            };
            if sum > u128::MAX - a {
                proof {
                    lemma_check_stops(list@, 0, i as int + 1);
                }
                return Err(TokenError::AbortOverflow);
            }
            sum = sum + a;
            i = i + 1;
        }
        assert(list@.subrange(0, n as int) =~= list@);
        self.genesis(name, symbol, list);
        Ok(())
    }

    /// Sets the token up from its `init` arguments as documented: the name, the
    /// symbol, the number of genesis accounts, then each account's address and
    /// amount.
    pub fn init_from_args(&mut self, args: &Vec<String>) -> (r: Result<(), TokenError>)
        ensures
            match listed_accounts(args@) {
                None => r == Err::<(), TokenError>(TokenError::InvalidAccount) && *final(self)
                    == *old(self),
                Some(list) => match genesis_check(list, 0) {
                    Err(e) => r == Err::<(), TokenError>(e) && *final(self) == *old(self),
                    Ok(t) => {
                        &&& r == Ok::<(), TokenError>(())
                        &&& final(self).name@ == args@[0]@
                        &&& final(self).symbol@ == args@[1]@
                        &&& t == genesis_sum(list)
                        &&& genesis_done(*old(self), *final(self), list)
                    },
                },
            },
    {
        match genesis_accounts(args) {
            None => Err(TokenError::InvalidAccount),
            Some(list) => self.init_ledger(args[0].as_str(), args[1].as_str(), Some(&list)),
        }
    }

    /// Whether the access control list's address is still to be learnt from the
    /// community.
    pub fn acl_unknown(&self) -> (b: bool)
        ensures
            b == (self.acl_app@.len() == 0),
    {
        self.acl_app.unicode_len() == 0
    }

    /// Takes the access control list's address that the community gave, where
    /// none is set yet.
    pub fn adopt_acl(&mut self, found: Option<String>)
        ensures
            old(self).acl_app@.len() == 0 && found is Some ==> final(self).acl_app == found.unwrap(),
            !(old(self).acl_app@.len() == 0 && found is Some) ==> final(self).acl_app == old(
                self,
            ).acl_app,
            final(self).balances == old(self).balances,
            final(self).holders == old(self).holders,
            final(self).total == old(self).total,
            final(self).name == old(self).name,
            final(self).symbol == old(self).symbol,
            final(self).community_app == old(self).community_app,
    {
        if self.acl_app.unicode_len() == 0 {
            if let Some(a) = found {
                self.acl_app = a;
            }
        }
    }

    /// Mints `amount` to `rec`: its balance and the total supply grow by the
    /// amount, and it joins the holders.
    pub fn mint(&mut self, rec: &str, amount: u128)
        requires
            balance_of(old(self).balances@, ascii_lower(rec@)) + amount <= u128::MAX,
            old(self).total + amount <= u128::MAX,
        ensures
            minted(*old(self), *final(self), rec@, amount),
    {
        let key = addr_to_lower(rec);
        let balance = self.read_balance(key.as_str());
        proof {
            crate::text::lemma_ascii_lower_idempotent(rec@);
        }
        self.balances.insert(key.clone(), balance + amount);
        self.total = self.total + amount;
        self.add_to_holder_list(key);
    }

    /// Burns `amount` from `rec`: its balance and the total supply shrink by the
    /// amount.
    pub fn burn(&mut self, rec: &str, amount: u128)
        requires
            balance_of(old(self).balances@, ascii_lower(rec@)) >= amount,
            old(self).total >= amount,
        ensures
            burnt(*old(self), *final(self), rec@, amount),
    {
        let key = addr_to_lower(rec);
        let balance = self.read_balance(key.as_str());
        proof {
            crate::text::lemma_ascii_lower_idempotent(rec@);
        }
        self.balances.insert(key, balance - amount);
        self.total = self.total - amount;
    }

    /// Transfers `amount` from `from` to `to`, refused where the sender's balance
    /// is below it: the sender's balance is lowered by the amount, the
    /// recipient's raised by it, and the recipient joins the holders.
    pub fn transfer(&mut self, from: &str, to: &str, amount: u128) -> (r: Result<(), TokenError>)
        requires
            balance_of(old(self).balances@, ascii_lower(from@)) >= amount ==> transfer_credit(
                old(self).balances@,
                from@,
                to@,
                amount,
            ) <= u128::MAX,
        ensures
            if balance_of(old(self).balances@, ascii_lower(from@)) < amount {
                r == Err::<(), TokenError>(TokenError::InsufficientBalance) && *final(self) == *old(
                    self,
                )
            } else {
                r == Ok::<(), TokenError>(()) && transferred(
                    *old(self),
                    *final(self),
                    from@,
                    to@,
                    amount,
                )
            },
    {
        let f = addr_to_lower(from);
        let t = addr_to_lower(to);
        proof {
            crate::text::lemma_ascii_lower_idempotent(from@);
            crate::text::lemma_ascii_lower_idempotent(to@);
        }
        let from_balance = self.read_balance(f.as_str());
        if from_balance < amount {
            return Err(TokenError::InsufficientBalance);
        }
        self.balances.insert(f, from_balance - amount);
        let to_balance = self.read_balance(t.as_str());
        self.balances.insert(t.clone(), to_balance + amount);
        self.add_to_holder_list(t);
        Ok(())
    }
}

/// The methods that the token app answers to.
pub enum TokenMethod {
    DefaultPermissions,
    Mint,
    Burn,
    Balance,
    Transfer,
    TotalSupply,
    HolderList,
    CanMigrate,
    CallDemoReadDb,
    Unknown,
}

/// The method that a method name selects.
pub open spec fn token_method_of(name: Seq<char>) -> TokenMethod {
    if name == "default_permissions"@ {
        TokenMethod::DefaultPermissions
    } else if name == "mint"@ {
        TokenMethod::Mint
    } else if name == "burn"@ {
        TokenMethod::Burn
    } else if name == "balance"@ {
        TokenMethod::Balance
    } else if name == "transfer"@ {
        TokenMethod::Transfer
    } else if name == "totalSupply"@ {
        TokenMethod::TotalSupply
    } else if name == "holderList"@ {
        TokenMethod::HolderList
    } else if name == "canMigrate"@ {
        TokenMethod::CanMigrate
    } else if name == "call_demo_readDB"@ {
        TokenMethod::CallDemoReadDb
    } else {
        TokenMethod::Unknown
    }
}

/// Selects the method that a call names.
pub fn token_method(name: &str) -> (m: TokenMethod)
    ensures
        m == token_method_of(name@),
{
    if same_text(name, "default_permissions") {
        TokenMethod::DefaultPermissions
    } else if same_text(name, "mint") {
        TokenMethod::Mint
    } else if same_text(name, "burn") {
        TokenMethod::Burn
    } else if same_text(name, "balance") {
        TokenMethod::Balance
    } else if same_text(name, "transfer") {
        TokenMethod::Transfer
    } else if same_text(name, "totalSupply") {
        TokenMethod::TotalSupply
    } else if same_text(name, "holderList") {
        TokenMethod::HolderList
    } else if same_text(name, "canMigrate") {
        TokenMethod::CanMigrate
    } else if same_text(name, "call_demo_readDB") {
        TokenMethod::CallDemoReadDb
    } else {
        TokenMethod::Unknown
    }
}

/// The action that the access control list is asked about for a method:
/// `token.` followed by the method's name.
pub fn permission_action(method: &str) -> (a: String)
    ensures
        a@ == "token."@ + method@,
{
    let mut a = String::from_str("token.");
    a.append(method);
    a
}

/// A call of the token app, with its arguments as the caller wrote them.
pub enum TokenRequest {
    Mint { rec: String, amount: String },
    Burn { rec: String, amount: String },
    Balance { addr: String },
    Transfer { from: String, to: String, amount: String },
    TotalSupply,
    HolderList,
    CanMigrate,
    Unknown,
}

/// What a successful call hands back.
pub enum TokenReply {
    /// The call returns this text.
    Text(String),
    /// The holder list's addresses.
    Holders(Vec<String>),
}

impl TokenLedger {
    /// Decides on the access control list's answer to "may the caller do this":
    /// `reply` is what the call of the list returned, `None` where it returned
    /// nothing (the call is not made where no list is set).
    pub fn permission_reply(&self, reply: Option<String>) -> (r: Result<(), TokenError>)
        ensures
            self.acl_app@.len() == 0 ==> r == Err::<(), TokenError>(TokenError::AclMissing),
            self.acl_app@.len() != 0 ==> match reply {
                None => r == Err::<(), TokenError>(TokenError::CallFailed),
                Some(t) => if t@ == "true"@ {
                    r == Ok::<(), TokenError>(())
                } else {
                    r == Err::<(), TokenError>(TokenError::NoPermission)
                },
            },
    {
        if self.acl_app.unicode_len() == 0 {
            return Err(TokenError::AclMissing);
        }
        match reply {
            None => Err(TokenError::CallFailed),
            Some(t) => if same_text(t.as_str(), "true") {
                Ok(())
            } else {
                Err(TokenError::NoPermission)
            },
        }
    }

    /// Answers one call of the token app. `permission` is the access control
    /// list's verdict, which mint, burn and transfer need first. A refused call
    /// leaves the ledger as it was.
    pub fn invoke(&mut self, req: TokenRequest, permission: Result<(), TokenError>) -> (r: Result<
        TokenReply,
        TokenError,
    >)
        ensures
            r is Err ==> *final(self) == *old(self),
            match req {
                TokenRequest::Mint { rec, amount } => match permission {
                    Err(e) => r == Err::<TokenReply, TokenError>(e),
                    Ok(_) => if !parses_as_u128(amount@) {
                        r == Err::<TokenReply, TokenError>(TokenError::AbortInvalidNumber)
                    } else if balance_of(old(self).balances@, ascii_lower(rec@)) + unsigned_value(
                        amount@,
                    ) > u128::MAX || old(self).total + unsigned_value(amount@) > u128::MAX {
                        r == Err::<TokenReply, TokenError>(TokenError::AbortOverflow)
                    } else {
                        &&& r matches Ok(TokenReply::Text(t)) && t@ == "success"@
                        &&& minted(
                            *old(self),
                            *final(self),
                            rec@,
                            unsigned_value(amount@) as u128,
                        )
                    },
                },
                TokenRequest::Burn { rec, amount } => match permission {
                    Err(e) => r == Err::<TokenReply, TokenError>(e),
                    Ok(_) => if !parses_as_u128(amount@) {
                        r == Err::<TokenReply, TokenError>(TokenError::AbortInvalidNumber)
                    } else if balance_of(old(self).balances@, ascii_lower(rec@)) < unsigned_value(
                        amount@,
                    ) || old(self).total < unsigned_value(amount@) {
                        r == Err::<TokenReply, TokenError>(TokenError::AbortOverflow)
                    } else {
                        &&& r matches Ok(TokenReply::Text(t)) && t@ == "success"@
                        &&& burnt(*old(self), *final(self), rec@, unsigned_value(amount@) as u128)
                    },
                },
                TokenRequest::Transfer { from, to, amount } => match permission {
                    Err(e) => r == Err::<TokenReply, TokenError>(e),
                    Ok(_) => if !parses_as_u128(amount@) {
                        r == Err::<TokenReply, TokenError>(TokenError::AbortInvalidNumber)
                    } else if balance_of(old(self).balances@, ascii_lower(from@)) < unsigned_value(
                        amount@,
                    ) {
                        r == Err::<TokenReply, TokenError>(TokenError::InsufficientBalance)
                    } else if transfer_credit(
                        old(self).balances@,
                        from@,
                        to@,
                        unsigned_value(amount@) as u128,
                    ) > u128::MAX {
                        r == Err::<TokenReply, TokenError>(TokenError::AbortOverflow)
                    } else {
                        &&& r matches Ok(TokenReply::Text(t)) && t@ == "success"@
                        &&& transferred(
                            *old(self),
                            *final(self),
                            from@,
                            to@,
                            unsigned_value(amount@) as u128,
                        )
                    },
                },
                TokenRequest::Balance { addr } => {
                    &&& r matches Ok(TokenReply::Text(t)) && t@ == decimal_text(
                        balance_of(old(self).balances@, ascii_lower(addr@)) as nat,
                    )
                    &&& *final(self) == *old(self)
                },
                TokenRequest::TotalSupply => {
                    &&& r matches Ok(TokenReply::Text(t)) && t@ == decimal_text(
                        old(self).total as nat,
                    )
                    &&& *final(self) == *old(self)
                },
                TokenRequest::HolderList => {
                    &&& r matches Ok(TokenReply::Holders(hs)) && hs@.len() == old(
                        self,
                    ).holders.items().len() && forall|i: int|
                        0 <= i < hs@.len() ==> #[trigger] hs@[i] == old(self).holders.items()[i].0
                    &&& *final(self) == *old(self)
                },
                TokenRequest::CanMigrate => {
                    &&& r matches Ok(TokenReply::Text(t)) && t@ == "true"@
                    &&& *final(self) == *old(self)
                },
                TokenRequest::Unknown => r == Err::<TokenReply, TokenError>(
                    TokenError::MethodNotFound,
                ),
            },
    {
        match req {
            TokenRequest::Mint { rec, amount } => {
                if let Err(e) = permission {
                    return Err(e);
                }
                let a = match try_parse_u128(amount.as_str()) {
                    Some(a) => a,
                    None => {
                        return Err(TokenError::AbortInvalidNumber);
                    },
                };
                let balance = self.read_balance(rec.as_str());
                if balance > u128::MAX - a || self.total > u128::MAX - a {
                    return Err(TokenError::AbortOverflow);
                }
                self.mint(rec.as_str(), a);
                Ok(TokenReply::Text(String::from_str("success")))
            },
            TokenRequest::Burn { rec, amount } => {
                if let Err(e) = permission {
                    return Err(e);
                }
                let a = match try_parse_u128(amount.as_str()) {
                    Some(a) => a,
                    None => {
                        return Err(TokenError::AbortInvalidNumber);
                    },
                };
                let balance = self.read_balance(rec.as_str());
                if balance < a || self.total < a {
                    return Err(TokenError::AbortOverflow);
                }
                self.burn(rec.as_str(), a);
                Ok(TokenReply::Text(String::from_str("success")))
            },
            TokenRequest::Transfer { from, to, amount } => {
                if let Err(e) = permission {
                    return Err(e);
                }
                let a = match try_parse_u128(amount.as_str()) {
                    Some(a) => a,
                    None => {
                        return Err(TokenError::AbortInvalidNumber);
                    },
                };
                let fb = self.read_balance(from.as_str());
                if fb < a {
                    return Err(TokenError::InsufficientBalance);
                }
                let f = addr_to_lower(from.as_str());
                let t = addr_to_lower(to.as_str());
                if !same_text(f.as_str(), t.as_str()) {
                    let tb = self.read_balance(to.as_str());
                    if tb > u128::MAX - a {
                        return Err(TokenError::AbortOverflow);
                    }
                }
                match self.transfer(from.as_str(), to.as_str(), a) {
                    Ok(()) => Ok(TokenReply::Text(String::from_str("success"))),
                    Err(e) => Err(e),
                }
            },
            TokenRequest::Balance { addr } => {
                let b = self.read_balance(addr.as_str());
                Ok(TokenReply::Text(u128_to_text(b)))
            },
            TokenRequest::TotalSupply => Ok(TokenReply::Text(u128_to_text(self.total))),
            TokenRequest::HolderList => Ok(TokenReply::Holders(self.holders.keys())),
            TokenRequest::CanMigrate => Ok(TokenReply::Text(String::from_str("true"))),
            TokenRequest::Unknown => Err(TokenError::MethodNotFound),
        }
    }
}

/// Burning undoes minting: minting `amount` to `rec` and then burning it again
/// leaves every balance as it was (an entry of zero stands for no entry).
pub proof fn law_burn_undoes_mint(
    balances: Map<Seq<char>, u128>,
    rec: Seq<char>,
    amount: u128,
    any: Seq<char>,
)
    requires
        balance_of(balances, ascii_lower(rec)) + amount <= u128::MAX,
    ensures
        ({
            let k = ascii_lower(rec);
            let after_mint = balances.insert(k, (balance_of(balances, k) + amount) as u128);
            let after_burn = after_mint.insert(k, (balance_of(after_mint, k) - amount) as u128);
            balance_of(after_burn, any) == balance_of(balances, any)
        }),
{
}

/// A transfer never changes the total supply, moves the amount from the sender
/// to the recipient, keeps the sum of their balances, and touches no other
/// balance.
pub proof fn law_transfer_keeps_supply(
    pre: TokenLedger,
    post: TokenLedger,
    from: Seq<char>,
    to: Seq<char>,
    amount: u128,
    other: Seq<char>,
)
    requires
        transferred(pre, post, from, to, amount),
        balance_of(pre.balances@, ascii_lower(from)) >= amount,
        transfer_credit(pre.balances@, from, to, amount) <= u128::MAX,
        ascii_lower(from) != ascii_lower(to),
        other != ascii_lower(from),
        other != ascii_lower(to),
    ensures
        post.total == pre.total,
        balance_of(post.balances@, ascii_lower(from)) == balance_of(pre.balances@, ascii_lower(from))
            - amount,
        balance_of(post.balances@, ascii_lower(to)) == balance_of(pre.balances@, ascii_lower(to))
            + amount,
        balance_of(post.balances@, ascii_lower(from)) + balance_of(post.balances@, ascii_lower(to))
            == balance_of(pre.balances@, ascii_lower(from)) + balance_of(pre.balances@, ascii_lower(to)),
        balance_of(post.balances@, other) == balance_of(pre.balances@, other),
{
}

/// A transfer to oneself leaves one's balance as it was.
pub proof fn law_self_transfer_keeps_balance(
    pre: TokenLedger,
    post: TokenLedger,
    from: Seq<char>,
    to: Seq<char>,
    amount: u128,
)
    requires
        transferred(pre, post, from, to, amount),
        ascii_lower(from) == ascii_lower(to),
        balance_of(pre.balances@, ascii_lower(from)) >= amount,
    ensures
        balance_of(post.balances@, ascii_lower(from)) == balance_of(
            pre.balances@,
            ascii_lower(from),
        ),
{
}

/// What a balance query answers reads back, as a number, as the balance.
pub proof fn law_balance_text_reads_back(balances: Map<Seq<char>, u128>, addr: Seq<char>)
    ensures
        parses_as_u128(decimal_text(balance_of(balances, ascii_lower(addr)) as nat)),
        unsigned_value(decimal_text(balance_of(balances, ascii_lower(addr)) as nat)) == balance_of(
            balances,
            ascii_lower(addr),
        ),
{
    crate::text::lemma_decimal_roundtrip(balance_of(balances, ascii_lower(addr)) as nat);
}

proof fn lemma_genesis_sum_prefix(accounts: Seq<(String, String)>, k: int)
    requires
        0 <= k <= accounts.len(),
    ensures
        genesis_sum(accounts.subrange(0, k)) <= genesis_sum(accounts),
    decreases accounts.len(),
{
    if k < accounts.len() {
        assert(accounts.drop_last().subrange(0, k) =~= accounts.subrange(0, k));
        lemma_genesis_sum_prefix(accounts.drop_last(), k);
    } else {
        assert(accounts.subrange(0, k) =~= accounts);
    }
}

/// Every holder has a balance entry: where each holder of a ledger is a key
/// under which a balance is kept, that stays so after genesis, a mint or a
/// transfer, so each address is listed once, under the key of its balance.
pub proof fn law_holders_have_balances(
    pre: TokenLedger,
    post: TokenLedger,
    accounts: Seq<(String, String)>,
    who: Seq<char>,
    other: Seq<char>,
    amount: u128,
)
    requires
        pre.holders@.dom().subset_of(pre.balances@.dom()),
    ensures
        genesis_done(pre, post, accounts) ==> post.holders@.dom().subset_of(post.balances@.dom()),
        minted(pre, post, who, amount) ==> post.holders@.dom().subset_of(post.balances@.dom()),
        transferred(pre, post, who, other, amount) ==> post.holders@.dom().subset_of(
            post.balances@.dom(),
        ),
{
    lemma_credit_keeps_holders(pre.holders@, pre.balances@, accounts);
}

proof fn lemma_credit_keeps_holders(
    holders: Map<Seq<char>, ()>,
    balances: Map<Seq<char>, u128>,
    accounts: Seq<(String, String)>,
)
    requires
        holders.dom().subset_of(balances.dom()),
    ensures
        credit_holders(holders, accounts).dom().subset_of(credit_map(balances, accounts).dom()),
    decreases accounts.len(),
{
    if accounts.len() > 0 {
        lemma_credit_keeps_holders(holders, balances, accounts.drop_last());
    }
}

} // verus!

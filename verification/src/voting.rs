//! The voting app: votes on events, weighed by validator power (an official
//! community) or by token balance, and what a passed vote executes.
//!
//! What the chain and the other contracts answer during one call is handed in
//! as a [`Chain`]: the block's time and height, validator powers, and the
//! answers of the community and the token app.
use crate::strmap::entry_keys;
use crate::strmap::StrMap;
use crate::text::decimal_text;
use crate::text::parses_as_u128;
use crate::text::parses_as_u64;
use crate::text::same_text;
use crate::text::try_parse_u128;
use crate::text::try_parse_u64;
use crate::text::u128_to_text;
use crate::text::unsigned_value;
use crate::text::copy_texts;
use vstd::prelude::*;

verus! {

/// One hundred percent: percentages are fractions of this base.
pub const PCT_BASE: u128 = 1_000_000_000_000_000_000u128;

/// How one voter voted, and with what weight.
#[derive(Clone, Copy, PartialEq, Eq, Structural)]
pub struct Voter {
    pub support: bool,
    pub stake: u128,
}

/// What a vote is about.
pub struct Event {
    /// `call_contract`, `claim`, `community`, or anything else.
    pub event_type: String,
    /// The name of the app to call, for `call_contract`.
    pub contract: String,
    /// The method to call, or the rule to update.
    pub method: String,
    /// The call's arguments, or the new voting rule.
    pub params: Vec<String>,
    pub description: String,
}

/// An event as values.
pub struct EventView {
    pub event_type: Seq<char>,
    pub contract: Seq<char>,
    pub method: Seq<char>,
    pub params: Seq<Seq<char>>,
    pub description: Seq<char>,
}

impl View for Event {
    type V = EventView;

    open spec fn view(&self) -> EventView {
        EventView {
            event_type: self.event_type@,
            contract: self.contract@,
            method: self.method@,
            params: self.params@.map_values(|p: String| p@),
            description: self.description@,
        }
    }
}

impl Event {
    /// The event of a vote that names none: every field empty.
    pub fn empty() -> (e: Self)
        ensures
            e@.event_type.len() == 0,
            e@.contract.len() == 0,
            e@.method.len() == 0,
            e@.params.len() == 0,
            e@.description.len() == 0,
    {
        Event {
            event_type: String::new(),
            contract: String::new(),
            method: String::new(),
            params: Vec::new(),
            description: String::new(),
        }
    }
}

/// A vote.
pub struct Vote {
    /// Who opened the vote.
    pub sponsor: String,
    pub passed: bool,
    pub executed: bool,
    pub start_date: u64,
    pub end_date: u64,
    /// The block height at which the vote was opened.
    pub snapshot_block: u64,
    pub support_required_pct: u128,
    pub min_accept_quorum_pct: u128,
    /// The weight in favour.
    pub yea: u128,
    /// The weight against.
    pub nay: u128,
    /// The weight of all who may vote.
    pub voting_power: u128,
    /// The voters, by address.
    pub voters: StrMap<Voter>,
    pub event: Event,
}

/// A vote as values; `voter_order` lists the voters in the order they are kept.
pub struct VoteView {
    pub sponsor: Seq<char>,
    pub passed: bool,
    pub executed: bool,
    pub start_date: u64,
    pub end_date: u64,
    pub snapshot_block: u64,
    pub support_required_pct: u128,
    pub min_accept_quorum_pct: u128,
    pub yea: u128,
    pub nay: u128,
    pub voting_power: u128,
    pub voters: Map<Seq<char>, Voter>,
    pub voter_order: Seq<Seq<char>>,
    pub event: EventView,
}

impl View for Vote {
    type V = VoteView;

    open spec fn view(&self) -> VoteView {
        VoteView {
            sponsor: self.sponsor@,
            passed: self.passed,
            executed: self.executed,
            start_date: self.start_date,
            end_date: self.end_date,
            snapshot_block: self.snapshot_block,
            support_required_pct: self.support_required_pct,
            min_accept_quorum_pct: self.min_accept_quorum_pct,
            yea: self.yea,
            nay: self.nay,
            voting_power: self.voting_power,
            voters: self.voters@,
            voter_order: entry_keys(self.voters.items()),
            event: self.event@,
        }
    }
}

/// What the chain and the other contracts answer during one call.
pub struct Chain {
    /// The block's time.
    pub now: u64,
    /// The block's height.
    pub height: u64,
    /// The chain's total validator power.
    pub total_power: u128,
    /// Validator power, by address; an address with no entry has none.
    pub validator_power: StrMap<u128>,
    /// The community's answers to "where is app X", by app name; no entry where
    /// the call returned nothing.
    pub community_apps: StrMap<String>,
    /// The token app's answer to "total supply", if it answered.
    pub token_supply: Option<String>,
    /// The token app's answers to "balance of X", by address; no entry where
    /// the call returned nothing.
    pub token_balances: StrMap<String>,
}

/// A chain's answers as values.
pub struct ChainView {
    pub now: u64,
    pub height: u64,
    pub total_power: u128,
    pub validator_power: Map<Seq<char>, u128>,
    pub community_apps: Map<Seq<char>, String>,
    pub token_supply: Option<Seq<char>>,
    pub token_balances: Map<Seq<char>, String>,
}

impl View for Chain {
    type V = ChainView;

    open spec fn view(&self) -> ChainView {
        ChainView {
            now: self.now,
            height: self.height,
            total_power: self.total_power,
            validator_power: self.validator_power@,
            community_apps: self.community_apps@,
            token_supply: match self.token_supply {
                Some(t) => Some(t@),
                None => None,
            },
            token_balances: self.token_balances@,
        }
    }
}

/// The voting rules and settings that the app keeps.
pub struct VotingParams {
    pub acl_app: String,
    /// The community's address, once set.
    pub community_app: Option<String>,
    pub support_required_pct: u128,
    pub min_accept_quorum_pct: u128,
    pub vote_open_time: u64,
    /// Whether votes are weighed by validator power rather than by tokens.
    pub is_official: bool,
    pub has_token_address: bool,
}

/// The stored state of the voting app: its settings and its votes, vote `i`
/// being `votes[i - 1]`.
pub struct VotingState {
    pub params: VotingParams,
    pub votes: Vec<Vote>,
}

/// Why a call of the voting app is refused.
#[derive(PartialEq, Eq, Structural)]
pub enum VoteError {
    NoPower,
    CallReturnedNone,
    VoteNotOpen,
    NoVotingPower,
    InvalidEvent,
    CommunityNotSet,
    InvalidEventContract,
    OfficialCannotUpdate,
    InvalidEventMethod,
    InvalidParamsLength,
    InvalidSupportPct,
    InvalidMinRequiredPct,
    InvalidVoteOpenTime,
    VoteNotExisted,
    VoteNotExist,
    AlreadyExecuted,
    OutOfDate,
    SponsorMismatch,
    NotPassed,
    /// The called contract answered something else than `success`.
    CallRejected,
    InvalidIsOfficial,
    ErrorParams,
    MethodNotFound,
    /// A number in the call or in storage is not what it must be: the contract call aborts.
    AbortInvalidNumber,
    /// An amount leaves the range of `u128`: the contract call aborts.
    AbortOverflow,
    /// A `community` event lacks one of its three rule values: the contract call aborts.
    AbortMissingParam,
}

/// The text that the contract returns for each refusal (a rejected call
/// returns the called contract's answer instead).
pub open spec fn vote_error_text(e: VoteError) -> Seq<char> {
    match e {
        VoteError::NoPower => "you have no power to cast vote"@,
        VoteError::CallReturnedNone => "call contract error, return none"@,
        VoteError::VoteNotOpen => "the vote is not open"@,
        VoteError::NoVotingPower => "error, no voting power"@,
        VoteError::InvalidEvent => "error, invalid event"@,
        VoteError::CommunityNotSet => "community contract not set yet"@,
        VoteError::InvalidEventContract => "error, invalid contract in event"@,
        VoteError::OfficialCannotUpdate => "error, official contract can't update default voting params now"@,
        VoteError::InvalidEventMethod => "invalid param: event.method"@,
        VoteError::InvalidParamsLength => "invalid params length"@,
        VoteError::InvalidSupportPct => "error params: support_pct"@,
        VoteError::InvalidMinRequiredPct => "error param: min_required_pct"@,
        VoteError::InvalidVoteOpenTime => "error param: vote_open_time"@,
        VoteError::VoteNotExisted => "the vote not existed"@,
        VoteError::VoteNotExist => "invalid vote_id, the vote not exist"@,
        VoteError::AlreadyExecuted => "the vote has been executed already"@,
        VoteError::OutOfDate => "the vote has been out of date"@,
        VoteError::SponsorMismatch => "address not match, the invoker must be similar to event.sponsor"@,
        VoteError::NotPassed => "invalid vote_id, the vote not passed yet"@,
        VoteError::CallRejected => "call rejected"@,
        VoteError::InvalidIsOfficial => "invalid param: is_official"@,
        VoteError::ErrorParams => "error params"@,
        VoteError::MethodNotFound => "invoke method not found"@,
        VoteError::AbortInvalidNumber => "invalid number"@,
        VoteError::AbortOverflow => "arithmetic overflow"@,
        VoteError::AbortMissingParam => "missing parameter"@,
    }
}

impl VoteError {
    /// The text that the contract returns for this refusal.
    pub fn message(&self) -> (t: String)
        ensures
            t@ == vote_error_text(*self),
    {
        match self {
            VoteError::NoPower => String::from_str("you have no power to cast vote"),
            VoteError::CallReturnedNone => String::from_str("call contract error, return none"),
            VoteError::VoteNotOpen => String::from_str("the vote is not open"),
            VoteError::NoVotingPower => String::from_str("error, no voting power"),
            VoteError::InvalidEvent => String::from_str("error, invalid event"),
            VoteError::CommunityNotSet => String::from_str("community contract not set yet"),
            VoteError::InvalidEventContract => String::from_str("error, invalid contract in event"),
            VoteError::OfficialCannotUpdate => String::from_str(
                "error, official contract can't update default voting params now",
            ),
            VoteError::InvalidEventMethod => String::from_str("invalid param: event.method"),
            VoteError::InvalidParamsLength => String::from_str("invalid params length"),
            VoteError::InvalidSupportPct => String::from_str("error params: support_pct"),
            VoteError::InvalidMinRequiredPct => String::from_str("error param: min_required_pct"),
            VoteError::InvalidVoteOpenTime => String::from_str("error param: vote_open_time"),
            VoteError::VoteNotExisted => String::from_str("the vote not existed"),
            VoteError::VoteNotExist => String::from_str("invalid vote_id, the vote not exist"),
            VoteError::AlreadyExecuted => String::from_str("the vote has been executed already"),
            VoteError::OutOfDate => String::from_str("the vote has been out of date"),
            VoteError::SponsorMismatch => String::from_str(
                "address not match, the invoker must be similar to event.sponsor",
            ),
            VoteError::NotPassed => String::from_str("invalid vote_id, the vote not passed yet"),
            VoteError::CallRejected => String::from_str("call rejected"),
            VoteError::InvalidIsOfficial => String::from_str("invalid param: is_official"),
            VoteError::ErrorParams => String::from_str("error params"),
            VoteError::MethodNotFound => String::from_str("invoke method not found"),
            VoteError::AbortInvalidNumber => String::from_str("invalid number"),
            VoteError::AbortOverflow => String::from_str("arithmetic overflow"),
            VoteError::AbortMissingParam => String::from_str("missing parameter"),
        }
    }

    /// Whether the contract aborts here rather than returning an error.
    pub fn aborts(&self) -> (b: bool)
        ensures
            b == (*self == VoteError::AbortInvalidNumber || *self == VoteError::AbortOverflow
                || *self == VoteError::AbortMissingParam),
    {
        match self {
            VoteError::AbortInvalidNumber => true,
            VoteError::AbortOverflow => true,
            VoteError::AbortMissingParam => true,
            _ => false,
        }
    }
}

/// The power that a table gives an address; none where it has no entry.
pub open spec fn power_of(powers: Map<Seq<char>, u128>, who: Seq<char>) -> u128 {
    if powers.contains_key(who) {
        powers[who]
    } else {
        0
    }
}

/// What an answer of the token app is worth: no answer counts as nothing; an
/// answer that is no number aborts the call.
pub open spec fn reply_amount(reply: Option<Seq<char>>) -> Result<u128, VoteError> {
    match reply {
        None => Ok(0),
        Some(t) => if parses_as_u128(t) {
            Ok(unsigned_value(t) as u128)
        } else {
            Err(VoteError::AbortInvalidNumber)
        },
    }
}

/// The answer of the token app about one address.
pub open spec fn balance_reply(c: ChainView, who: Seq<char>) -> Option<Seq<char>> {
    if c.token_balances.contains_key(who) {
        Some(c.token_balances[who]@)
    } else {
        None
    }
}

/// The weight of a voter: its validator power in an official community, else
/// its token balance (the token app is looked up through the community first).
pub open spec fn stake_spec(c: ChainView, official: bool, voter: Seq<char>) -> Result<
    u128,
    VoteError,
> {
    if official {
        Ok(power_of(c.validator_power, voter))
    } else if !c.community_apps.contains_key("token_app"@) {
        Err(VoteError::CallReturnedNone)
    } else {
        reply_amount(balance_reply(c, voter))
    }
}

/// The weight of all who may vote: the chain's total power in an official
/// community, else the token's total supply, which must not be zero.
pub open spec fn total_power_spec(c: ChainView, official: bool) -> Result<u128, VoteError> {
    if official {
        Ok(c.total_power)
    } else if !c.community_apps.contains_key("token_app"@) {
        Err(VoteError::CallReturnedNone)
    } else {
        match reply_amount(c.token_supply) {
            Err(e) => Err(e),
            Ok(p) => if p == 0 {
                Err(VoteError::NoVotingPower)
            } else {
                Ok(p)
            },
        }
    }
}

/// Whether a vote is open at `now`: before its end, neither passed nor executed.
pub open spec fn is_open_spec(v: VoteView, now: u64) -> bool {
    now < v.end_date && !v.executed && !v.passed
}

/// Whether `value` is more than `pct` (a fraction of [`PCT_BASE`]) of `total`;
/// `None` where `value * PCT_BASE` overflows, which aborts the call.
pub open spec fn pct_spec(value: u128, total: u128, pct: u128) -> Option<bool> {
    if total == 0 || value == 0 {
        Some(false)
    } else if value * PCT_BASE > u128::MAX {
        None
    } else {
        Some((value * PCT_BASE) as u128 / total > pct)
    }
}

/// Whether `voter` may vote on the vote: it has weight and the vote is open.
pub open spec fn can_vote_spec(v: VoteView, c: ChainView, official: bool, voter: Seq<char>) -> Result<
    (),
    VoteError,
> {
    match stake_spec(c, official, voter) {
        Err(e) => Err(e),
        Ok(s) => if s == 0 {
            Err(VoteError::NoPower)
        } else if !is_open_spec(v, c.now) {
            Err(VoteError::VoteNotOpen)
        } else {
            Ok(())
        },
    }
}

/// The tally after the voters' stakes are brought up to their current validator
/// power, voter by voter in the order given; `None` where a step overflows.
pub open spec fn refresh_tally(
    order: Seq<Seq<char>>,
    voters: Map<Seq<char>, Voter>,
    powers: Map<Seq<char>, u128>,
    yea: u128,
    nay: u128,
) -> Option<(u128, u128)>
    decreases order.len(),
{
    if order.len() == 0 {
        Some((yea, nay))
    } else {
        match refresh_tally(order.drop_last(), voters, powers, yea, nay) {
            None => None,
            Some((y, n)) => {
                let st = voters[order.last()];
                let p = power_of(powers, order.last());
                if st.stake == p {
                    Some((y, n))
                } else if st.support {
                    if y < st.stake || y - st.stake + p > u128::MAX {
                        None
                    } else {
                        Some(((y - st.stake + p) as u128, n))
                    }
                } else {
                    if n < st.stake || n - st.stake + p > u128::MAX {
                        None
                    } else {
                        Some((y, (n - st.stake + p) as u128))
                    }
                }
            },
        }
    }
}

/// The voters with their stakes set to their current validator power.
pub open spec fn refreshed_voters(voters: Map<Seq<char>, Voter>, powers: Map<Seq<char>, u128>) -> Map<
    Seq<char>,
    Voter,
> {
    Map::new(
        |k: Seq<char>| voters.contains_key(k),
        |k: Seq<char>| Voter { support: voters[k].support, stake: power_of(powers, k) },
    )
}

/// The vote after its tally is brought up to date, and whether it passes now:
/// it must be open, the weight in favour must be more than the required share
/// of the votes cast and more than the minimum share of all weight.
pub open spec fn can_pass_spec(v: VoteView, c: ChainView, official: bool) -> Result<
    (VoteView, bool),
    VoteError,
> {
    if v.executed || v.passed || !is_open_spec(v, c.now) {
        Ok((v, false))
    } else {
        let refreshed: Option<VoteView> = if official {
            match refresh_tally(v.voter_order, v.voters, c.validator_power, v.yea, v.nay) {
                None => None,
                Some((y, n)) => Some(
                    VoteView {
                        voting_power: c.total_power,
                        yea: y,
                        nay: n,
                        voters: refreshed_voters(v.voters, c.validator_power),
                        ..v
                    },
                ),
            }
        } else {
            Some(v)
        };
        match refreshed {
            None => Err(VoteError::AbortOverflow),
            Some(w) => if w.yea + w.nay > u128::MAX {
                Err(VoteError::AbortOverflow)
            } else {
                match pct_spec(w.yea, (w.yea + w.nay) as u128, w.support_required_pct) {
                    None => Err(VoteError::AbortOverflow),
                    Some(false) => Ok((w, false)),
                    Some(true) => match pct_spec(w.yea, w.voting_power, w.min_accept_quorum_pct) {
                        None => Err(VoteError::AbortOverflow),
                        Some(b) => Ok((w, b)),
                    },
                }
            },
        }
    }
}

/// The vote after `voter` votes: its earlier weight, if any, is taken back from
/// the side it was on, its current weight is added to the side it now takes, it
/// is recorded, and the vote passes if it now can (a passed `claim` is executed
/// at once).
pub open spec fn vote_spec(
    v: VoteView,
    c: ChainView,
    official: bool,
    voter: Seq<char>,
    support: bool,
) -> Result<VoteView, VoteError> {
    let had = v.voters.contains_key(voter);
    let taken_back: Option<VoteView> = if had {
        let p = v.voters[voter];
        if p.support {
            if v.yea < p.stake {
                None
            } else {
                Some(VoteView { yea: (v.yea - p.stake) as u128, ..v })
            }
        } else {
            if v.nay < p.stake {
                None
            } else {
                Some(VoteView { nay: (v.nay - p.stake) as u128, ..v })
            }
        }
    } else {
        Some(v)
    };
    match taken_back {
        None => Err(VoteError::AbortOverflow),
        Some(v1) => match stake_spec(c, official, voter) {
            Err(e) => Err(e),
            Ok(s) => if (if support {
                v1.yea
            } else {
                v1.nay
            }) + s > u128::MAX {
                Err(VoteError::AbortOverflow)
            } else {
                let v2 = VoteView {
                    yea: if support {
                        (v1.yea + s) as u128
                    } else {
                        v1.yea
                    },
                    nay: if support {
                        v1.nay
                    } else {
                        (v1.nay + s) as u128
                    },
                    voters: v1.voters.insert(voter, Voter { support, stake: s }),
                    voter_order: if had {
                        v1.voter_order
                    } else {
                        v1.voter_order.push(voter)
                    },
                    ..v1
                };
                match can_pass_spec(v2, c, official) {
                    Err(e) => Err(e),
                    Ok((v3, false)) => Ok(v3),
                    Ok((v3, true)) => Ok(
                        VoteView {
                            passed: true,
                            executed: if v3.event.event_type == "claim"@ {
                                true
                            } else {
                                v3.executed
                            },
                            ..v3
                        },
                    ),
                }
            },
        },
    }
}

/// Whether the text is `-1`, which leaves a voting rule as it is.
pub open spec fn keeps_rule(t: Seq<char>) -> bool {
    t == "-1"@
}

/// Whether an event may be put to the vote: a `call_contract` event names an
/// app the community knows; a `community` event (only where the community is
/// not official) updates the voting rule with three numbers, each `-1` or valid.
pub open spec fn check_event_spec(
    e: EventView,
    official: bool,
    community_set: bool,
    apps: Map<Seq<char>, String>,
) -> Result<(), VoteError> {
    if e.event_type == "call_contract"@ {
        if !community_set {
            Err(VoteError::CommunityNotSet)
        } else if !apps.contains_key(e.contract) {
            Err(VoteError::InvalidEventContract)
        } else {
            Ok(())
        }
    } else if e.event_type == "community"@ {
        if official {
            Err(VoteError::OfficialCannotUpdate)
        } else if e.method != "update_community_voting_rule"@ {
            Err(VoteError::InvalidEventMethod)
        } else if e.params.len() != 3 {
            Err(VoteError::InvalidParamsLength)
        } else if !keeps_rule(e.params[0]) && !parses_as_u128(e.params[0]) {
            Err(VoteError::InvalidSupportPct)
        } else if !keeps_rule(e.params[1]) && !parses_as_u128(e.params[1]) {
            Err(VoteError::InvalidMinRequiredPct)
        } else if !keeps_rule(e.params[2]) && !parses_as_u64(e.params[2]) {
            Err(VoteError::InvalidVoteOpenTime)
        } else {
            Ok(())
        }
    } else {
        Ok(())
    }
}

/// Whether `value` is more than `pct` (a fraction of [`PCT_BASE`]) of `total`.
pub fn is_value_pct(value: u128, total: u128, pct: u128) -> (b: bool)
    requires
        total != 0 && value != 0 ==> value * PCT_BASE <= u128::MAX,
    ensures
        Some(b) == pct_spec(value, total, pct),
{
    if total == 0 || value == 0 {
        return false;
    }
    let computed_pct = value * PCT_BASE / total;
    computed_pct > pct
}

fn value_pct(value: u128, total: u128, pct: u128) -> (r: Option<bool>)
    ensures
        r == pct_spec(value, total, pct),
{
    if total != 0 && value != 0 && value > u128::MAX / PCT_BASE {
        assert(value * PCT_BASE > u128::MAX) by (nonlinear_arith)
            requires
                value > u128::MAX / PCT_BASE,
                PCT_BASE > 0,
        ;
        return None;
    }
    if total != 0 && value != 0 {
        assert(value * PCT_BASE <= u128::MAX) by (nonlinear_arith)
            requires
                value <= u128::MAX / PCT_BASE,
                PCT_BASE > 0,
        ;
    }
    Some(is_value_pct(value, total, pct))
}

/// The power that a table gives an address.
fn power_in(powers: &StrMap<u128>, who: &String) -> (p: u128)
    ensures
        p == power_of(powers@, who@),
{
    match powers.get(who) {
        Some(p) => *p,
        None => 0,
    }
}

/// What an answer of the token app is worth.
pub fn token_reply_amount(reply: Option<&String>) -> (r: Result<u128, VoteError>)
    ensures
        r == reply_amount(
            match reply {
                Some(t) => Some(t@),
                None => None,
            },
        ),
{
    match reply {
        None => Ok(0),
        Some(t) => match try_parse_u128(t.as_str()) {
            Some(v) => Ok(v),
            None => Err(VoteError::AbortInvalidNumber),
        },
    }
}

impl Chain {
    /// The weight of a voter.
    pub fn stake_of(&self, official: bool, voter: &String) -> (r: Result<u128, VoteError>)
        ensures
            r == stake_spec(self@, official, voter@),
    {
        if official {
            return Ok(power_in(&self.validator_power, voter));
        }
        if !self.community_apps.contains_key(&String::from_str("token_app")) {
            return Err(VoteError::CallReturnedNone);
        }
        token_reply_amount(self.token_balances.get(voter))
    }

    /// The weight of all who may vote.
    pub fn total_voting_power(&self, official: bool) -> (r: Result<u128, VoteError>)
        ensures
            r == total_power_spec(self@, official),
    {
        if official {
            return Ok(self.total_power);
        }
        if !self.community_apps.contains_key(&String::from_str("token_app")) {
            return Err(VoteError::CallReturnedNone);
        }
        let supply = match &self.token_supply {
            Some(t) => Some(t),
            None => None,
        };
        match token_reply_amount(supply) {
            Err(e) => Err(e),
            Ok(p) => if p == 0 {
                Err(VoteError::NoVotingPower)
            } else {
                Ok(p)
            },
        }
    }
}

/// The entries of a voter table after the first `i` of them have their stakes
/// set to their current validator power.
pub open spec fn refreshed_items(
    items: Seq<(String, Voter)>,
    powers: Map<Seq<char>, u128>,
    i: int,
) -> Seq<(String, Voter)> {
    Seq::new(
        items.len(),
        |j: int|
            if j < i {
                (
                    items[j].0,
                    Voter { support: items[j].1.support, stake: power_of(powers, items[j].0@) },
                )
            } else {
                items[j]
            },
    )
}

proof fn lemma_refresh_none_extends(
    order: Seq<Seq<char>>,
    voters: Map<Seq<char>, Voter>,
    powers: Map<Seq<char>, u128>,
    yea: u128,
    nay: u128,
    i: int,
)
    requires
        0 <= i <= order.len(),
        refresh_tally(order.subrange(0, i), voters, powers, yea, nay) is None,
    ensures
        refresh_tally(order, voters, powers, yea, nay) is None,
    decreases order.len() - i,
{
    if i < order.len() {
        assert(order.subrange(0, i + 1).drop_last() =~= order.subrange(0, i));
        lemma_refresh_none_extends(order, voters, powers, yea, nay, i + 1);
    } else {
        assert(order.subrange(0, i) =~= order);
    }
}

impl Vote {
    /// Whether the vote is open at `now`.
    pub fn is_vote_open(&self, now: u64) -> (b: bool)
        ensures
            b == is_open_spec(self@, now),
    {
        now < self.end_date && !self.executed && !self.passed
    }

    /// Whether `voter` may vote on this vote.
    pub fn can_vote(&self, chain: &Chain, official: bool, voter: &String) -> (r: Result<
        (),
        VoteError,
    >)
        ensures
            r == can_vote_spec(self@, chain@, official, voter@),
    {
        let s = match chain.stake_of(official, voter) {
            Ok(s) => s,
            Err(e) => {
                return Err(e);
            },
        };
        if s == 0 {
            return Err(VoteError::NoPower);
        }
        if !self.is_vote_open(chain.now) {
            return Err(VoteError::VoteNotOpen);
        }
        Ok(())
    }

    /// Brings the stakes and the tally up to the voters' current validator power.
    fn refresh_stakes(&mut self, chain: &Chain) -> (r: Result<(), VoteError>)
        ensures
            match refresh_tally(
                old(self)@.voter_order,
                old(self)@.voters,
                chain@.validator_power,
                old(self).yea,
                old(self).nay,
            ) {
                None => r == Err::<(), VoteError>(VoteError::AbortOverflow),
                Some((y, n)) => r == Ok::<(), VoteError>(()) && final(self)@ == VoteView {
                    yea: y,
                    nay: n,
                    voters: refreshed_voters(old(self)@.voters, chain@.validator_power),
                    ..old(self)@
                },
            },
    {
        let ghost items0 = self.voters.items();
        let ghost order = old(self)@.voter_order;
        let ghost powers = chain@.validator_power;
        let n = self.voters.len();
        let mut i: usize = 0;
        while i < n
            invariant
                n == items0.len(),
                i <= n,
                crate::strmap::keys_distinct(items0),
                old(self).voters@ == crate::strmap::entries_map(items0),
                order == entry_keys(items0),
                order == old(self)@.voter_order,
                powers == chain@.validator_power,
                self.voters.items() == refreshed_items(items0, powers, i as int),
                refresh_tally(
                    order.subrange(0, i as int),
                    old(self)@.voters,
                    powers,
                    old(self).yea,
                    old(self).nay,
                ) == Some((self.yea, self.nay)),
                self.sponsor == old(self).sponsor,
                self.passed == old(self).passed,
                self.executed == old(self).executed,
                self.start_date == old(self).start_date,
                self.end_date == old(self).end_date,
                self.snapshot_block == old(self).snapshot_block,
                self.support_required_pct == old(self).support_required_pct,
                self.min_accept_quorum_pct == old(self).min_accept_quorum_pct,
                self.voting_power == old(self).voting_power,
                self.event == old(self).event,
            decreases n - i,
        {
            let k = self.voters.key_at(i).clone();
            let st = *self.voters.value_at(i);
            let p = power_in(&chain.validator_power, &k);
            proof {
                crate::strmap::lemma_entries_map_index(items0, i as int);
                assert(order.subrange(0, i + 1).drop_last() =~= order.subrange(0, i as int));
                assert(order.subrange(0, i + 1).last() == k@);
            }
            if st.stake != p {
                if st.support {
                    if self.yea < st.stake || self.yea - st.stake > u128::MAX - p {
                        proof {
                            assert(refresh_tally(order.subrange(0, i + 1), old(self)@.voters, powers, old(self).yea, old(self).nay) is None);
                            lemma_refresh_none_extends(order, old(self)@.voters, powers, old(self).yea, old(self).nay, i as int + 1);
                            assert(order.subrange(0, n as int) =~= order);
                        }
                        return Err(VoteError::AbortOverflow);
                    }
                    self.yea = self.yea - st.stake + p;
                } else {
                    if self.nay < st.stake || self.nay - st.stake > u128::MAX - p {
                        proof {
                            assert(refresh_tally(order.subrange(0, i + 1), old(self)@.voters, powers, old(self).yea, old(self).nay) is None);
                            lemma_refresh_none_extends(order, old(self)@.voters, powers, old(self).yea, old(self).nay, i as int + 1);
                            assert(order.subrange(0, n as int) =~= order);
                        }
                        return Err(VoteError::AbortOverflow);
                    }
                    self.nay = self.nay - st.stake + p;
                }
            }
            self.voters.set_value_at(i, Voter { support: st.support, stake: p });
            proof {
                assert(self.voters.items() =~= refreshed_items(items0, powers, i + 1));
            }
            i = i + 1;
        }
        proof {
            assert(order.subrange(0, n as int) =~= order);
            let final_items = self.voters.items();
            assert(entry_keys(final_items) =~= order);
        }
        proof {
            let final_items = self.voters.items();
            crate::strmap::lemma_view_is_items(self.voters);
            assert(crate::strmap::keys_distinct(final_items)) by {
                assert forall|a: int, b: int|
                    0 <= a < final_items.len() && 0 <= b < final_items.len() && a != b implies
                    #[trigger] final_items[a].0@ != #[trigger] final_items[b].0@ by {
                    assert(final_items[a].0 == items0[a].0 && final_items[b].0 == items0[b].0);
                }
            }
            assert forall|k: Seq<char>| #![trigger self.voters@.contains_key(k)]
                self.voters@.contains_key(k) == refreshed_voters(old(self)@.voters, powers).contains_key(k) by {
                crate::strmap::lemma_entries_map_dom(items0, k);
                crate::strmap::lemma_entries_map_dom(final_items, k);
                if self.voters@.contains_key(k) {
                    let j = choose|j: int| 0 <= j < final_items.len() && #[trigger] final_items[j].0@ == k;
                    assert(items0[j].0@ == k);
                }
                if old(self)@.voters.contains_key(k) {
                    let j = choose|j: int| 0 <= j < items0.len() && #[trigger] items0[j].0@ == k;
                    assert(final_items[j].0@ == k);
                }
            }
            assert forall|k: Seq<char>| #[trigger] self.voters@.contains_key(k) implies
                self.voters@[k] == refreshed_voters(old(self)@.voters, powers)[k] by {
                crate::strmap::lemma_entries_map_dom(final_items, k);
                let j = choose|j: int| 0 <= j < final_items.len() && #[trigger] final_items[j].0@ == k;
                crate::strmap::lemma_entries_map_index(final_items, j);
                crate::strmap::lemma_entries_map_index(items0, j);
            }
            assert(self.voters@ =~= refreshed_voters(old(self)@.voters, powers));
        }
        Ok(())
    }
}

impl Vote {
    /// Brings the tally up to date (in an official community) and decides
    /// whether the vote passes now.
    pub fn can_pass(&mut self, chain: &Chain, official: bool) -> (r: Result<bool, VoteError>)
        ensures
            match can_pass_spec(old(self)@, chain@, official) {
                Err(e) => r == Err::<bool, VoteError>(e),
                Ok((w, b)) => r == Ok::<bool, VoteError>(b) && final(self)@ == w,
            },
    {
        if self.executed || self.passed || !self.is_vote_open(chain.now) {
            return Ok(false);
        }
        if official {
            self.voting_power = chain.total_power;
            match self.refresh_stakes(chain) {
                Err(e) => {
                    return Err(e);
                },
                Ok(()) => {},
            }
        }
        if self.yea > u128::MAX - self.nay {
            return Err(VoteError::AbortOverflow);
        }
        let total = self.yea + self.nay;
        match value_pct(self.yea, total, self.support_required_pct) {
            None => Err(VoteError::AbortOverflow),
            Some(false) => Ok(false),
            Some(true) => match value_pct(self.yea, self.voting_power, self.min_accept_quorum_pct) {
                None => Err(VoteError::AbortOverflow),
                Some(b) => Ok(b),
            },
        }
    }

    /// Records `voter`'s vote and lets the vote pass if it now can.
    pub fn vote(&mut self, chain: &Chain, official: bool, voter: &String, support: bool) -> (r:
        Result<(), VoteError>)
        ensures
            match vote_spec(old(self)@, chain@, official, voter@, support) {
                Err(e) => r == Err::<(), VoteError>(e),
                Ok(w) => r == Ok::<(), VoteError>(()) && final(self)@ == w,
            },
    {
        let had = match self.voters.get(voter) {
            Some(p) => Some(*p),
            None => None,
        };
        match had {
            Some(p) => {
                if p.support {
                    if self.yea < p.stake {
                        return Err(VoteError::AbortOverflow);
                    }
                    self.yea = self.yea - p.stake;
                } else {
                    if self.nay < p.stake {
                        return Err(VoteError::AbortOverflow);
                    }
                    self.nay = self.nay - p.stake;
                }
            },
            None => {},
        }
        let s = match chain.stake_of(official, voter) {
            Ok(s) => s,
            Err(e) => {
                return Err(e);
            },
        };
        if support {
            if self.yea > u128::MAX - s {
                return Err(VoteError::AbortOverflow);
            }
            self.yea = self.yea + s;
        } else {
            if self.nay > u128::MAX - s {
                return Err(VoteError::AbortOverflow);
            }
            self.nay = self.nay + s;
        }
        let ghost order0 = self@.voter_order;
        self.voters.insert(voter.clone(), Voter { support, stake: s });
        proof {
            if had is None {
                assert(entry_keys(self.voters.items()) =~= order0.push(voter@));
            }
        }
        match self.can_pass(chain, official) {
            Err(e) => Err(e),
            Ok(true) => {
                self.passed = true;
                if same_text(self.event.event_type.as_str(), "claim") {
                    self.executed = true;
                }
                Ok(())
            },
            Ok(false) => Ok(()),
        }
    }
}

impl Event {
    /// A copy of the event.
    pub fn duplicate(&self) -> (e: Event)
        ensures
            e@ == self@,
    {
        let params = copy_texts(&self.params);
        proof {
            assert(params@.map_values(|p: String| p@) =~= self.params@.map_values(|p: String| p@));
        }
        Event {
            event_type: self.event_type.clone(),
            contract: self.contract.clone(),
            method: self.method.clone(),
            params,
            description: self.description.clone(),
        }
    }
}

impl Vote {
    /// A copy of the vote.
    pub fn duplicate(&self) -> (v: Vote)
        ensures
            v@ == self@,
    {
        Vote {
            sponsor: self.sponsor.clone(),
            passed: self.passed,
            executed: self.executed,
            start_date: self.start_date,
            end_date: self.end_date,
            snapshot_block: self.snapshot_block,
            support_required_pct: self.support_required_pct,
            min_accept_quorum_pct: self.min_accept_quorum_pct,
            yea: self.yea,
            nay: self.nay,
            voting_power: self.voting_power,
            voters: self.voters.copied(),
            event: self.event.duplicate(),
        }
    }
}

/// An event as values, where one was given.
pub open spec fn event_view(e: Option<Event>) -> Option<EventView> {
    match e {
        Some(ev) => Some(ev@),
        None => None,
    }
}

/// The vote that a new-vote call opens: its weight, dates, rules and event,
/// then the sponsor's own vote in favour where `cast` is set.
pub open spec fn new_vote_spec(
    params: VotingParams,
    c: ChainView,
    voter: Seq<char>,
    cast: bool,
    event: Option<EventView>,
) -> Result<VoteView, VoteError> {
    let official = params.is_official;
    match total_power_spec(c, official) {
        Err(e) => Err(e),
        Ok(power) => if c.now + params.vote_open_time > u64::MAX {
            Err(VoteError::AbortOverflow)
        } else {
            match event {
                None => Err(VoteError::InvalidEvent),
                Some(e) => match check_event_spec(
                    e,
                    official,
                    params.community_app is Some,
                    c.community_apps,
                ) {
                    Err(x) => Err(x),
                    Ok(()) => {
                        let v0 = VoteView {
                            sponsor: voter,
                            passed: false,
                            executed: false,
                            start_date: c.now,
                            end_date: (c.now + params.vote_open_time) as u64,
                            snapshot_block: c.height,
                            support_required_pct: params.support_required_pct,
                            min_accept_quorum_pct: params.min_accept_quorum_pct,
                            yea: 0,
                            nay: 0,
                            voting_power: power,
                            voters: Map::empty(),
                            voter_order: Seq::empty(),
                            event: e,
                        };
                        if cast {
                            match can_vote_spec(v0, c, official, voter) {
                                Err(x) => Err(x),
                                Ok(()) => vote_spec(v0, c, official, voter, true),
                            }
                        } else {
                            Ok(v0)
                        }
                    },
                },
            }
        },
    }
}

/// The vote after `voter` casts a vote on it: its weight of all who may vote
/// is taken anew, then the voter must be able to vote.
pub open spec fn cast_vote_spec(
    params: VotingParams,
    v: VoteView,
    c: ChainView,
    supports: bool,
    voter: Seq<char>,
) -> Result<VoteView, VoteError> {
    match total_power_spec(c, params.is_official) {
        Err(e) => Err(e),
        Ok(p) => {
            let v1 = VoteView { voting_power: p, ..v };
            match can_vote_spec(v1, c, params.is_official, voter) {
                Err(e) => Err(e),
                Ok(()) => vote_spec(v1, c, params.is_official, voter, supports),
            }
        },
    }
}

/// The position of the vote that a text names: the text must be the decimal
/// text of a vote's number, which runs from 1.
pub open spec fn vote_index_spec(n: nat, t: Seq<char>) -> Option<int> {
    if parses_as_u64(t) && decimal_text(unsigned_value(t)) == t && 1 <= unsigned_value(t) <= n {
        Some(unsigned_value(t) - 1)
    } else {
        None
    }
}

/// The next step of executing a passed vote.
pub enum Execution {
    /// Nothing is left to do: the call answers `success`.
    Done,
    /// Look `contract` up in the community, call its `method` with `params`,
    /// and hand the answer to [`VotingState::finish_call`] with `index`.
    Call { index: usize, contract: String, method: String, params: Vec<String> },
}

/// The voting settings after a `community` event's rule takes effect: each of
/// the three values replaces its setting unless it is `-1`.
pub open spec fn rule_applied(params: VotingParams, e: EventView) -> VotingParams {
    VotingParams {
        support_required_pct: if keeps_rule(e.params[0]) {
            params.support_required_pct
        } else {
            unsigned_value(e.params[0]) as u128
        },
        min_accept_quorum_pct: if keeps_rule(e.params[1]) {
            params.min_accept_quorum_pct
        } else {
            unsigned_value(e.params[1]) as u128
        },
        vote_open_time: if keeps_rule(e.params[2]) {
            params.vote_open_time
        } else {
            unsigned_value(e.params[2]) as u64
        },
        ..params
    }
}

/// Whether a `community` event's rule can take effect: three values, each `-1`
/// or a valid number.
pub open spec fn rule_valid(e: EventView) -> bool {
    &&& e.params.len() >= 3
    &&& keeps_rule(e.params[0]) || parses_as_u128(e.params[0])
    &&& keeps_rule(e.params[1]) || parses_as_u128(e.params[1])
    &&& keeps_rule(e.params[2]) || parses_as_u64(e.params[2])
}

/// What a rule that cannot take effect aborts with.
pub open spec fn rule_error(e: EventView) -> VoteError {
    if e.params.len() < 3 {
        VoteError::AbortMissingParam
    } else {
        VoteError::AbortInvalidNumber
    }
}

fn is_keep_rule(t: &String) -> (b: bool)
    ensures
        b == keeps_rule(t@),
{
    same_text(t.as_str(), "-1")
}

impl VotingParams {
    /// Sets the time a vote stays open.
    pub fn change_vote_open_time(&mut self, new_vote_time: u64)
        ensures
            *final(self) == (VotingParams { vote_open_time: new_vote_time, ..*old(self) }),
    {
        self.vote_open_time = new_vote_time;
    }

    /// Sets the minimum share of all weight that must be in favour.
    pub fn change_min_accept_quorum(&mut self, min_accept_quorum_pct: u128)
        ensures
            *final(self) == (VotingParams { min_accept_quorum_pct, ..*old(self) }),
    {
        self.min_accept_quorum_pct = min_accept_quorum_pct;
    }

    /// Sets the share of the votes cast that must be in favour.
    pub fn change_support_required_pct(&mut self, supported_required_pct: u128)
        ensures
            *final(self) == (VotingParams {
                support_required_pct: supported_required_pct,
                ..*old(self)
            }),
    {
        self.support_required_pct = supported_required_pct;
    }

    /// Lets a `community` event's rule take effect.
    fn apply_rule(&mut self, e: &Event) -> (r: Result<(), VoteError>)
        ensures
            rule_valid(e@) ==> r == Ok::<(), VoteError>(()) && *final(self) == rule_applied(
                *old(self),
                e@,
            ),
            !rule_valid(e@) ==> r == Err::<(), VoteError>(rule_error(e@)) && *final(self) == *old(
                self,
            ),
    {
        if e.params.len() < 3 {
            return Err(VoteError::AbortMissingParam);
        }
        let ghost ep = e@.params;
        assert(ep[0] == e.params@[0]@ && ep[1] == e.params@[1]@ && ep[2] == e.params@[2]@);
        let support = if is_keep_rule(&e.params[0]) {
            self.support_required_pct
        } else {
            match try_parse_u128(e.params[0].as_str()) {
                Some(v) => v,
                None => {
                    return Err(VoteError::AbortInvalidNumber);
                },
            }
        };
        let min = if is_keep_rule(&e.params[1]) {
            self.min_accept_quorum_pct
        } else {
            match try_parse_u128(e.params[1].as_str()) {
                Some(v) => v,
                None => {
                    return Err(VoteError::AbortInvalidNumber);
                },
            }
        };
        let open = if is_keep_rule(&e.params[2]) {
            self.vote_open_time
        } else {
            match try_parse_u64(e.params[2].as_str()) {
                Some(v) => v,
                None => {
                    return Err(VoteError::AbortInvalidNumber);
                },
            }
        };
        self.change_support_required_pct(support);
        self.change_min_accept_quorum(min);
        self.change_vote_open_time(open);
        Ok(())
    }
}

/// Checks an event before it is put to the vote.
pub fn check_event(e: &Event, official: bool, community_set: bool, chain: &Chain) -> (r: Result<
    (),
    VoteError,
>)
    ensures
        r == check_event_spec(e@, official, community_set, chain@.community_apps),
{
    if same_text(e.event_type.as_str(), "call_contract") {
        if !community_set {
            return Err(VoteError::CommunityNotSet);
        }
        if !chain.community_apps.contains_key(&e.contract) {
            return Err(VoteError::InvalidEventContract);
        }
        Ok(())
    } else if same_text(e.event_type.as_str(), "community") {
        if official {
            return Err(VoteError::OfficialCannotUpdate);
        }
        if !same_text(e.method.as_str(), "update_community_voting_rule") {
            return Err(VoteError::InvalidEventMethod);
        }
        if e.params.len() != 3 {
            return Err(VoteError::InvalidParamsLength);
        }
        let ghost ep = e@.params;
        assert(ep[0] == e.params@[0]@ && ep[1] == e.params@[1]@ && ep[2] == e.params@[2]@);
        if !is_keep_rule(&e.params[0]) && try_parse_u128(e.params[0].as_str()).is_none() {
            return Err(VoteError::InvalidSupportPct);
        }
        if !is_keep_rule(&e.params[1]) && try_parse_u128(e.params[1].as_str()).is_none() {
            return Err(VoteError::InvalidMinRequiredPct);
        }
        if !is_keep_rule(&e.params[2]) && try_parse_u64(e.params[2].as_str()).is_none() {
            return Err(VoteError::InvalidVoteOpenTime);
        }
        Ok(())
    } else {
        Ok(())
    }
}

/// Reads a vote's "supports" argument: `true` or `false`.
pub fn parse_supports(t: &str) -> (r: Result<bool, VoteError>)
    ensures
        t@ == "true"@ ==> r == Ok::<bool, VoteError>(true),
        t@ == "false"@ ==> r == Ok::<bool, VoteError>(false),
        t@ != "true"@ && t@ != "false"@ ==> r == Err::<bool, VoteError>(VoteError::ErrorParams),
{
    proof {
        reveal_strlit("true");
        reveal_strlit("false");
        assert("true"@.len() != "false"@.len());
    }
    if same_text(t, "true") {
        Ok(true)
    } else if same_text(t, "false") {
        Ok(false)
    } else {
        Err(VoteError::ErrorParams)
    }
}

impl VotingState {
    /// A voting app set up with its addresses and rules, and no votes.
    pub fn initialize(
        acl: &str,
        community: &str,
        support_required_pct: u128,
        min_accept_quorum_pct: u128,
        vote_time: u64,
        is_official: bool,
    ) -> (s: Self)
        ensures
            s.params.acl_app@ == acl@,
            s.params.community_app is Some,
            s.params.community_app.unwrap()@ == community@,
            s.params.support_required_pct == support_required_pct,
            s.params.min_accept_quorum_pct == min_accept_quorum_pct,
            s.params.vote_open_time == vote_time,
            s.params.is_official == is_official,
            !s.params.has_token_address,
            s.votes@.len() == 0,
    {
        VotingState {
            params: VotingParams {
                acl_app: acl.to_owned(),
                community_app: Some(community.to_owned()),
                support_required_pct,
                min_accept_quorum_pct,
                vote_open_time: vote_time,
                is_official,
                has_token_address: false,
            },
            votes: Vec::new(),
        }
    }

    /// Sets the app up from the arguments of its `init` call, as documented: the
    /// two shares, the open time, and `true` or `false` for an official
    /// community. `community` is the community that installs the app, which
    /// makes the call; the access control list is not known yet.
    pub fn init_from_args(
        community: &str,
        support: &str,
        min: &str,
        vote_time: &str,
        is_official: &str,
    ) -> (r: Result<Self, VoteError>)
        ensures
            !parses_as_u128(support@) || !parses_as_u128(min@) || !parses_as_u64(vote_time@) ==> (r
                matches Err(e) && e == VoteError::AbortInvalidNumber),
            parses_as_u128(support@) && parses_as_u128(min@) && parses_as_u64(vote_time@) ==> (if is_official@
                == "true"@ || is_official@ == "false"@ {
                r matches Ok(s) && s.params.acl_app@ == Seq::<char>::empty()
                    && s.params.community_app is Some
                    && s.params.community_app.unwrap()@ == community@
                    && s.params.support_required_pct == unsigned_value(support@)
                    && s.params.min_accept_quorum_pct == unsigned_value(min@)
                    && s.params.vote_open_time == unsigned_value(vote_time@) && s.params.is_official
                    == (is_official@ == "true"@) && !s.params.has_token_address && s.votes@.len()
                    == 0
            } else {
                r matches Err(e) && e == VoteError::InvalidIsOfficial
            }),
    {
        let s = match try_parse_u128(support) {
            Some(v) => v,
            None => {
                return Err(VoteError::AbortInvalidNumber);
            },
        };
        let m = match try_parse_u128(min) {
            Some(v) => v,
            None => {
                return Err(VoteError::AbortInvalidNumber);
            },
        };
        let t = match try_parse_u64(vote_time) {
            Some(v) => v,
            None => {
                return Err(VoteError::AbortInvalidNumber);
            },
        };
        let official = if same_text(is_official, "true") {
            true
        } else if same_text(is_official, "false") {
            false
        } else {
            return Err(VoteError::InvalidIsOfficial);
        };
        proof {
            reveal_strlit("");
        }
        Ok(VotingState::initialize("", community, s, m, t, official))
    }

    /// The permissions that the voting app asks for when installed: the
    /// community may set the token's address.
    pub fn default_permissions(&self) -> (list: Vec<(String, String)>)
        ensures
            list@.len() == 1,
            list@[0].0@ == "voting.set_token_address"@,
            list@[0].1@ == match self.params.community_app {
                Some(c) => c@,
                None => Seq::<char>::empty(),
            },
    {
        let community = match &self.params.community_app {
            Some(c) => c.clone(),
            None => String::new(),
        };
        let mut list: Vec<(String, String)> = Vec::new();
        list.push((String::from_str("voting.set_token_address"), community));
        list
    }

    /// The voting rules, as decimal text under their names.
    pub fn query_public_params(&self) -> (list: Vec<(String, String)>)
        ensures
            list@.len() == 3,
            list@[0].0@ == "vote_open_time"@,
            list@[0].1@ == decimal_text(self.params.vote_open_time as nat),
            list@[1].0@ == "min_accept_quorum_pct"@,
            list@[1].1@ == decimal_text(self.params.min_accept_quorum_pct as nat),
            list@[2].0@ == "support_required_pct"@,
            list@[2].1@ == decimal_text(self.params.support_required_pct as nat),
    {
        let mut list: Vec<(String, String)> = Vec::new();
        list.push(
            (String::from_str("vote_open_time"), u128_to_text(self.params.vote_open_time as u128)),
        );
        list.push(
            (
                String::from_str("min_accept_quorum_pct"),
                u128_to_text(self.params.min_accept_quorum_pct),
            ),
        );
        list.push(
            (
                String::from_str("support_required_pct"),
                u128_to_text(self.params.support_required_pct),
            ),
        );
        list
    }

    /// The vote with the given number, if there is one.
    pub fn query_vote(&self, vote_id: u64) -> (r: Result<&Vote, VoteError>)
        ensures
            1 <= vote_id <= self.votes@.len() ==> (r matches Ok(v) && *v == self.votes@[vote_id - 1]),
            !(1 <= vote_id <= self.votes@.len()) ==> (r matches Err(e) && e
                == VoteError::VoteNotExist),
    {
        if vote_id == 0 || vote_id as usize > self.votes.len() || vote_id > self.votes.len() as u64 {
            return Err(VoteError::VoteNotExist);
        }
        Ok(&self.votes[(vote_id - 1) as usize])
    }

    /// The position of the vote that a text names, if any.
    pub fn vote_index(&self, id: &str) -> (r: Option<usize>)
        ensures
            r is Some <==> vote_index_spec(self.votes@.len(), id@) is Some,
            r matches Some(j) ==> vote_index_spec(self.votes@.len(), id@) == Some(j as int),
    {
        let k = match try_parse_u64(id) {
            Some(k) => k,
            None => {
                return None;
            },
        };
        let canonical = u128_to_text(k as u128);
        if !same_text(canonical.as_str(), id) {
            return None;
        }
        if k == 0 || k > self.votes.len() as u64 {
            return None;
        }
        Some((k - 1) as usize)
    }

    /// Opens a vote on the event, with `voter` as its sponsor; where `cast_vote`
    /// is set the sponsor votes in favour at once. `event` is `None` where the
    /// event text is no event. Gives back the new vote's number.
    pub fn new_vote(&mut self, chain: &Chain, voter: &String, cast_vote: bool, event: Option<Event>) -> (r: Result<u64, VoteError>)
        requires
            old(self).votes@.len() < u64::MAX,
        ensures
            match new_vote_spec(old(self).params, chain@, voter@, cast_vote, event_view(event)) {
                Err(e) => r == Err::<u64, VoteError>(e) && *final(self) == *old(self),
                Ok(v) => {
                    &&& r == Ok::<u64, VoteError>((old(self).votes@.len() + 1) as u64)
                    &&& final(self).votes@.len() == old(self).votes@.len() + 1
                    &&& final(self).votes@.last()@ == v
                    &&& final(self).votes@.drop_last() == old(self).votes@
                    &&& final(self).params == old(self).params
                },
            },
    {
        let ghost ev = event_view(event);
        let official = self.params.is_official;
        let power = match chain.total_voting_power(official) {
            Ok(p) => p,
            Err(e) => {
                return Err(e);
            },
        };
        if chain.now > u64::MAX - self.params.vote_open_time {
            return Err(VoteError::AbortOverflow);
        }
        let e = match event {
            None => {
                return Err(VoteError::InvalidEvent);
            },
            Some(e) => e,
        };
        match check_event(&e, official, self.params.community_app.is_some(), chain) {
            Err(x) => {
                return Err(x);
            },
            Ok(()) => {},
        }
        let mut v = Vote {
            sponsor: voter.clone(),
            passed: false,
            executed: false,
            start_date: chain.now,
            end_date: chain.now + self.params.vote_open_time,
            snapshot_block: chain.height,
            support_required_pct: self.params.support_required_pct,
            min_accept_quorum_pct: self.params.min_accept_quorum_pct,
            yea: 0,
            nay: 0,
            voting_power: power,
            voters: StrMap::new(),
            event: e,
        };
        proof {
            assert(entry_keys(v.voters.items()) =~= Seq::<Seq<char>>::empty());
        }
        if cast_vote {
            match v.can_vote(chain, official, voter) {
                Err(x) => {
                    return Err(x);
                },
                Ok(()) => {},
            }
            match v.vote(chain, official, voter, true) {
                Err(x) => {
                    return Err(x);
                },
                Ok(()) => {},
            }
        }
        let id = self.votes.len() as u64 + 1;
        self.votes.push(v);
        proof {
            assert(self.votes@.drop_last() =~= old(self).votes@);
        }
        Ok(id)
    }

    /// Casts `voter`'s vote on vote number `vote_id`.
    pub fn cast_vote(&mut self, chain: &Chain, vote_id: u64, supports: bool, voter: &String) -> (r: Result<(), VoteError>)
        ensures
            !(1 <= vote_id <= old(self).votes@.len()) ==> r == Err::<(), VoteError>(
                VoteError::VoteNotExisted,
            ) && *final(self) == *old(self),
            1 <= vote_id <= old(self).votes@.len() ==> match cast_vote_spec(
                old(self).params,
                old(self).votes@[vote_id - 1]@,
                chain@,
                supports,
                voter@,
            ) {
                Err(e) => r == Err::<(), VoteError>(e) && *final(self) == *old(self),
                Ok(v) => {
                    &&& r == Ok::<(), VoteError>(())
                    &&& final(self).votes@.len() == old(self).votes@.len()
                    &&& final(self).votes@[vote_id - 1]@ == v
                    &&& forall|i: int|
                        0 <= i < old(self).votes@.len() && i != vote_id - 1 ==> #[trigger] final(self).votes@[i]
                            == old(self).votes@[i]
                    &&& final(self).params == old(self).params
                },
            },
    {
        if vote_id == 0 || vote_id > self.votes.len() as u64 {
            return Err(VoteError::VoteNotExisted);
        }
        let idx = (vote_id - 1) as usize;
        let official = self.params.is_official;
        let power = match chain.total_voting_power(official) {
            Ok(p) => p,
            Err(e) => {
                return Err(e);
            },
        };
        let mut v = self.votes[idx].duplicate();
        v.voting_power = power;
        match v.can_vote(chain, official, voter) {
            Err(e) => {
                return Err(e);
            },
            Ok(()) => {},
        }
        match v.vote(chain, official, voter, supports) {
            Err(e) => {
                return Err(e);
            },
            Ok(()) => {},
        }
        self.votes.set(idx, v);
        Ok(())
    }
}

/// A vote after its execution is recorded.
pub open spec fn executed_view(v: VoteView) -> VoteView {
    VoteView { executed: true, ..v }
}

impl VotingState {
    /// Starts executing the passed vote that `id` names, at time `now`, on behalf
    /// of `invoker`. A `community` event updates the voting rules here; a
    /// `call_contract` event, which only its sponsor may execute, needs the call
    /// made first (see [`Execution::Call`]); a `claim`, or any other event, has
    /// nothing to do.
    pub fn execute_event(&mut self, id: &str, now: u64, invoker: &str) -> (r: Result<
        Execution,
        VoteError,
    >)
        ensures
            match vote_index_spec(old(self).votes@.len(), id@) {
                None => r matches Err(e) && e == VoteError::VoteNotExist && *final(self) == *old(
                    self,
                ),
                Some(i) => {
                    let v = old(self).votes@[i]@;
                    if v.executed {
                        r matches Err(e) && e == VoteError::AlreadyExecuted && *final(self)
                            == *old(self)
                    } else if now > v.end_date {
                        r matches Err(e) && e == VoteError::OutOfDate && *final(self) == *old(self)
                    } else if !v.passed {
                        r matches Err(e) && e == VoteError::NotPassed && *final(self) == *old(self)
                    } else if v.event.event_type == "call_contract"@ {
                        if invoker@ != v.sponsor {
                            r matches Err(e) && e == VoteError::SponsorMismatch && *final(self)
                                == *old(self)
                        } else {
                            &&& r matches Ok(Execution::Call { index, contract, method, params })
                                && index == i && contract@ == v.event.contract && method@
                                == v.event.method && params@.map_values(|p: String| p@)
                                == v.event.params
                            &&& *final(self) == *old(self)
                        }
                    } else if v.event.event_type == "community"@ {
                        if !rule_valid(v.event) {
                            r matches Err(e) && e == rule_error(v.event) && *final(self) == *old(
                                self,
                            )
                        } else {
                            &&& r matches Ok(Execution::Done)
                            &&& final(self).params == rule_applied(old(self).params, v.event)
                            &&& final(self).votes@.len() == old(self).votes@.len()
                            &&& final(self).votes@[i]@ == executed_view(v)
                            &&& forall|j: int|
                                0 <= j < old(self).votes@.len() && j != i ==> #[trigger] final(self).votes@[j]
                                    == old(self).votes@[j]
                        }
                    } else {
                        r matches Ok(Execution::Done) && *final(self) == *old(self)
                    }
                },
            },
    {
        let i = match self.vote_index(id) {
            Some(i) => i,
            None => {
                return Err(VoteError::VoteNotExist);
            },
        };
        assert(vote_index_spec(self.votes@.len(), id@) == Some(i as int));
        if self.votes[i].executed {
            return Err(VoteError::AlreadyExecuted);
        }
        if now > self.votes[i].end_date {
            return Err(VoteError::OutOfDate);
        }
        if !self.votes[i].passed {
            return Err(VoteError::NotPassed);
        }
        if same_text(self.votes[i].event.event_type.as_str(), "call_contract") {
            if !same_text(invoker, self.votes[i].sponsor.as_str()) {
                return Err(VoteError::SponsorMismatch);
            }
            let ev = self.votes[i].event.duplicate();
            return Ok(
                Execution::Call {
                    index: i,
                    contract: ev.contract,
                    method: ev.method,
                    params: ev.params,
                },
            );
        }
        if same_text(self.votes[i].event.event_type.as_str(), "community") {
            let ev = self.votes[i].event.duplicate();
            match self.params.apply_rule(&ev) {
                Err(e) => {
                    return Err(e);
                },
                Ok(()) => {},
            }
            let mut v = self.votes[i].duplicate();
            v.executed = true;
            self.votes.set(i, v);
            return Ok(Execution::Done);
        }
        Ok(Execution::Done)
    }

    /// Finishes executing vote number `index + 1` with the called app's answer:
    /// only `success` marks the vote executed.
    pub fn finish_call(&mut self, index: usize, reply: Option<String>) -> (r: Result<
        (),
        VoteError,
    >)
        requires
            index < old(self).votes@.len(),
        ensures
            match reply {
                None => r == Err::<(), VoteError>(VoteError::CallReturnedNone) && *final(self)
                    == *old(self),
                Some(t) => if t@ == "success"@ {
                    &&& r == Ok::<(), VoteError>(())
                    &&& final(self).votes@.len() == old(self).votes@.len()
                    &&& final(self).votes@[index as int]@ == executed_view(
                        old(self).votes@[index as int]@,
                    )
                    &&& forall|j: int|
                        0 <= j < old(self).votes@.len() && j != index ==> #[trigger] final(self).votes@[j]
                            == old(self).votes@[j]
                    &&& final(self).params == old(self).params
                } else {
                    r == Err::<(), VoteError>(VoteError::CallRejected) && *final(self) == *old(self)
                },
            },
    {
        match reply {
            None => Err(VoteError::CallReturnedNone),
            Some(t) => {
                if !same_text(t.as_str(), "success") {
                    return Err(VoteError::CallRejected);
                }
                let mut v = self.votes[index].duplicate();
                v.executed = true;
                self.votes.set(index, v);
                Ok(())
            },
        }
    }
}

/// The methods that the voting app answers to.
pub enum VotingMethod {
    NewVote,
    CastVote,
    ExecuteEvent,
    DefaultPermissions,
    QueryVotes,
    QueryVote,
    QueryPublicParams,
    Unknown,
}

/// The method that a method name selects; `invoke` answers to all of them,
/// `query` only to the three queries.
pub open spec fn voting_method_of(name: Seq<char>, invoke: bool) -> VotingMethod {
    if invoke && name == "new_vote"@ {
        VotingMethod::NewVote
    } else if invoke && name == "cast_vote"@ {
        VotingMethod::CastVote
    } else if invoke && name == "execute_event"@ {
        VotingMethod::ExecuteEvent
    } else if invoke && name == "default_permissions"@ {
        VotingMethod::DefaultPermissions
    } else if name == "query_votes"@ {
        VotingMethod::QueryVotes
    } else if name == "query_vote"@ {
        VotingMethod::QueryVote
    } else if name == "query_public_params"@ {
        VotingMethod::QueryPublicParams
    } else {
        VotingMethod::Unknown
    }
}

/// Selects the method that a call names.
pub fn voting_method(name: &str, invoke: bool) -> (m: VotingMethod)
    ensures
        m == voting_method_of(name@, invoke),
{
    if invoke && same_text(name, "new_vote") {
        VotingMethod::NewVote
    } else if invoke && same_text(name, "cast_vote") {
        VotingMethod::CastVote
    } else if invoke && same_text(name, "execute_event") {
        VotingMethod::ExecuteEvent
    } else if invoke && same_text(name, "default_permissions") {
        VotingMethod::DefaultPermissions
    } else if same_text(name, "query_votes") {
        VotingMethod::QueryVotes
    } else if same_text(name, "query_vote") {
        VotingMethod::QueryVote
    } else if same_text(name, "query_public_params") {
        VotingMethod::QueryPublicParams
    } else {
        VotingMethod::Unknown
    }
}

/// What one voter adds to one side of the tally.
pub open spec fn side_share(x: Voter, support: bool) -> int {
    if x.support == support {
        x.stake as int
    } else {
        0
    }
}

/// The weight of the voters in `order` who are on one side.
pub open spec fn side_weight(order: Seq<Seq<char>>, voters: Map<Seq<char>, Voter>, support: bool) -> int
    decreases order.len(),
{
    if order.len() == 0 {
        0
    } else {
        side_weight(order.drop_last(), voters, support) + side_share(voters[order.last()], support)
    }
}

/// The tally of a vote agrees with its voters: the weight in favour is the sum
/// of the stakes of the voters in favour, the weight against that of the voters
/// against, and each voter is listed once.
pub open spec fn tally_kept(v: VoteView) -> bool {
    &&& v.yea == side_weight(v.voter_order, v.voters, true)
    &&& v.nay == side_weight(v.voter_order, v.voters, false)
    &&& v.voter_order.no_duplicates()
    &&& forall|k: Seq<char>| #[trigger] v.voters.contains_key(k) <==> v.voter_order.contains(k)
}

proof fn lemma_side_frame(
    order: Seq<Seq<char>>,
    voters: Map<Seq<char>, Voter>,
    key: Seq<char>,
    x: Voter,
    support: bool,
)
    requires
        !order.contains(key),
    ensures
        side_weight(order, voters.insert(key, x), support) == side_weight(order, voters, support),
    decreases order.len(),
{
    if order.len() > 0 {
        assert(order.drop_last().contains(key) ==> order.contains(key)) by {
            if order.drop_last().contains(key) {
                let j = choose|j: int| 0 <= j < order.drop_last().len() && order.drop_last()[j] == key;
                assert(order[j] == key);
            }
        }
        assert(order.last() != key) by {
            assert(order[order.len() - 1] == order.last());
        }
        lemma_side_frame(order.drop_last(), voters, key, x, support);
    }
}

proof fn lemma_side_update(
    order: Seq<Seq<char>>,
    voters: Map<Seq<char>, Voter>,
    key: Seq<char>,
    x: Voter,
    support: bool,
)
    requires
        order.no_duplicates(),
        order.contains(key),
    ensures
        side_weight(order, voters.insert(key, x), support) == side_weight(order, voters, support)
            - side_share(voters[key], support) + side_share(x, support),
    decreases order.len(),
{
    let d = order.drop_last();
    assert(order.last() == order[order.len() - 1]);
    if order.last() == key {
        assert(!d.contains(key)) by {
            if d.contains(key) {
                let j = choose|j: int| 0 <= j < d.len() && d[j] == key;
                assert(order[j] == order[order.len() - 1]);
            }
        }
        lemma_side_frame(d, voters, key, x, support);
    } else {
        assert(d.contains(key)) by {
            let j = choose|j: int| 0 <= j < order.len() && order[j] == key;
            assert(j < order.len() - 1);
            assert(d[j] == key);
        }
        assert(d.no_duplicates()) by {
            assert forall|a: int, b: int| 0 <= a < d.len() && 0 <= b < d.len() && a != b implies d[a]
                != d[b] by {
                assert(d[a] == order[a] && d[b] == order[b]);
            }
        }
        lemma_side_update(d, voters, key, x, support);
    }
}

proof fn lemma_refresh_weight(
    order: Seq<Seq<char>>,
    voters: Map<Seq<char>, Voter>,
    powers: Map<Seq<char>, u128>,
    yea: u128,
    nay: u128,
    y: u128,
    n: u128,
)
    requires
        refresh_tally(order, voters, powers, yea, nay) == Some((y, n)),
        forall|k: Seq<char>| order.contains(k) ==> #[trigger] voters.contains_key(k),
    ensures
        y == yea - side_weight(order, voters, true) + side_weight(
            order,
            refreshed_voters(voters, powers),
            true,
        ),
        n == nay - side_weight(order, voters, false) + side_weight(
            order,
            refreshed_voters(voters, powers),
            false,
        ),
    decreases order.len(),
{
    if order.len() > 0 {
        let d = order.drop_last();
        let k = order.last();
        assert(order.contains(k)) by {
            assert(order[order.len() - 1] == k);
        }
        assert forall|q: Seq<char>| d.contains(q) implies #[trigger] voters.contains_key(q) by {
            let j = choose|j: int| 0 <= j < d.len() && d[j] == q;
            assert(order[j] == q);
            assert(order.contains(q));
        }
        match refresh_tally(d, voters, powers, yea, nay) {
            Some((y0, n0)) => {
                lemma_refresh_weight(d, voters, powers, yea, nay, y0, n0);
            },
            None => {},
        }
    }
}

/// Voting keeps the tally in agreement with the voters: where the weight in
/// favour and the weight against were the sums of the stakes on each side,
/// they still are after anyone votes, whichever way.
pub proof fn law_vote_keeps_tally(
    v: VoteView,
    c: ChainView,
    official: bool,
    voter: Seq<char>,
    support: bool,
)
    requires
        tally_kept(v),
        vote_spec(v, c, official, voter, support) is Ok,
    ensures
        tally_kept(vote_spec(v, c, official, voter, support)->Ok_0),
{
    let had = v.voters.contains_key(voter);
    let s = stake_spec(c, official, voter)->Ok_0;
    let x = Voter { support, stake: s };
    let voters2 = v.voters.insert(voter, x);
    let order2 = if had {
        v.voter_order
    } else {
        v.voter_order.push(voter)
    };
    if had {
        assert(v.voter_order.contains(voter));
        lemma_side_update(v.voter_order, v.voters, voter, x, true);
        lemma_side_update(v.voter_order, v.voters, voter, x, false);
    } else {
        assert(!v.voter_order.contains(voter));
        lemma_side_frame(v.voter_order, v.voters, voter, x, true);
        lemma_side_frame(v.voter_order, v.voters, voter, x, false);
        assert(order2.drop_last() =~= v.voter_order);
        assert(order2.last() == voter);
        assert(order2.no_duplicates()) by {
            assert forall|a: int, b: int| 0 <= a < order2.len() && 0 <= b < order2.len() && a != b
                implies order2[a] != order2[b] by {
                if a < v.voter_order.len() && b < v.voter_order.len() {
                } else if a < v.voter_order.len() {
                    assert(v.voter_order.contains(order2[a]));
                } else if b < v.voter_order.len() {
                    assert(v.voter_order.contains(order2[b]));
                }
            }
        }
    }
    assert forall|k: Seq<char>| #[trigger] voters2.contains_key(k) <==> order2.contains(k) by {
        if !had && k == voter {
            assert(order2[order2.len() - 1] == voter);
        }
        if order2.contains(k) && k != voter && !had {
            let j = choose|j: int| 0 <= j < order2.len() && order2[j] == k;
            assert(j < v.voter_order.len());
            assert(v.voter_order[j] == k);
        }
        if v.voter_order.contains(k) && !had {
            let j = choose|j: int| 0 <= j < v.voter_order.len() && v.voter_order[j] == k;
            assert(order2[j] == k);
        }
    }
    let v2 = vote_spec_staged(v, c, official, voter, support);
    assert(v2.voters == voters2 && v2.voter_order == order2);
    assert(tally_kept(v2));
    if !(v2.executed || v2.passed || !is_open_spec(v2, c.now)) && official {
        match refresh_tally(v2.voter_order, v2.voters, c.validator_power, v2.yea, v2.nay) {
            Some((y, n)) => {
                assert forall|k: Seq<char>| v2.voter_order.contains(k) implies #[trigger] v2.voters.contains_key(
                    k,
                ) by {}
                lemma_refresh_weight(v2.voter_order, v2.voters, c.validator_power, v2.yea, v2.nay, y, n);
                let r = refreshed_voters(v2.voters, c.validator_power);
                assert forall|k: Seq<char>| #[trigger] r.contains_key(k) <==> v2.voter_order.contains(k) by {
                    assert(r.contains_key(k) == v2.voters.contains_key(k));
                }
            },
            None => {},
        }
    }
}

/// The vote after `voter`'s earlier weight is taken back and its current weight
/// added, before it is judged whether the vote passes.
spec fn vote_spec_staged(
    v: VoteView,
    c: ChainView,
    official: bool,
    voter: Seq<char>,
    support: bool,
) -> VoteView {
    let had = v.voters.contains_key(voter);
    let s = stake_spec(c, official, voter)->Ok_0;
    let p = v.voters[voter];
    let y1: int = if had && p.support {
        v.yea - p.stake
    } else {
        v.yea as int
    };
    let n1: int = if had && !p.support {
        v.nay - p.stake
    } else {
        v.nay as int
    };
    VoteView {
        yea: if support {
            (y1 + s) as u128
        } else {
            y1 as u128
        },
        nay: if support {
            n1 as u128
        } else {
            (n1 + s) as u128
        },
        voters: v.voters.insert(voter, Voter { support, stake: s }),
        voter_order: if had {
            v.voter_order
        } else {
            v.voter_order.push(voter)
        },
        ..v
    }
}

/// A vote that is not open cannot be voted on.
pub proof fn law_vote_needs_open(v: VoteView, c: ChainView, official: bool, voter: Seq<char>)
    ensures
        can_vote_spec(v, c, official, voter) is Ok ==> is_open_spec(v, c.now),
        can_vote_spec(v, c, official, voter) is Ok ==> stake_spec(c, official, voter) is Ok
            && stake_spec(c, official, voter)->Ok_0 > 0,
{
}

/// A passed or executed vote does not pass again and is left as it is.
pub proof fn law_settled_vote_is_left(v: VoteView, c: ChainView, official: bool)
    requires
        v.passed || v.executed,
    ensures
        can_pass_spec(v, c, official) == Ok::<(VoteView, bool), VoteError>((v, false)),
{
}

/// A passed vote stays passed, whoever votes on it.
pub proof fn law_passed_stays_passed(
    v: VoteView,
    c: ChainView,
    official: bool,
    voter: Seq<char>,
    support: bool,
)
    requires
        v.passed,
    ensures
        vote_spec(v, c, official, voter, support) matches Ok(w) ==> w.passed,
{
}

/// A claim that passes is executed at once.
pub proof fn law_passed_claim_is_executed(
    v: VoteView,
    c: ChainView,
    official: bool,
    voter: Seq<char>,
    support: bool,
)
    requires
        !v.passed,
        v.event.event_type == "claim"@,
    ensures
        vote_spec(v, c, official, voter, support) matches Ok(w) ==> (w.passed ==> w.executed),
{
}

/// A share is approved only where it is more than the percentage of the total:
/// `value` parts of `total` exceed `pct` parts of [`PCT_BASE`].
pub proof fn law_pct_means_more_than(value: u128, total: u128, pct: u128)
    ensures
        pct_spec(value, total, pct) == Some(true) ==> value * PCT_BASE > pct * total,
{
    if pct_spec(value, total, pct) == Some(true) {
        let q = (value * PCT_BASE) as u128 / total;
        assert(value * PCT_BASE > pct * total) by (nonlinear_arith)
            requires
                total > 0,
                q == (value * PCT_BASE) / (total as int),
                q > pct,
                value * PCT_BASE <= u128::MAX,
        ;
    }
}

/// A vote passes only with enough support and quorum: where it passes, the
/// weight in favour is more than the required share of all weight cast, and
/// more than the minimum share of all weight, which is the chain's total power
/// in an official community; the rules are those of the vote, and outside an
/// official community the vote itself is not changed.
pub proof fn law_pass_needs_support_and_quorum(v: VoteView, c: ChainView, official: bool)
    requires
        can_pass_spec(v, c, official) matches Ok((_, true)),
    ensures
        ({
            let w = can_pass_spec(v, c, official)->Ok_0.0;
            &&& w.yea > 0
            &&& w.yea * PCT_BASE > w.support_required_pct * (w.yea + w.nay)
            &&& w.voting_power > 0
            &&& w.yea * PCT_BASE > w.min_accept_quorum_pct * w.voting_power
            &&& w.support_required_pct == v.support_required_pct
            &&& w.min_accept_quorum_pct == v.min_accept_quorum_pct
            &&& !official ==> w == v
            &&& official ==> w.voting_power == c.total_power
        }),
{
    let w = can_pass_spec(v, c, official)->Ok_0.0;
    law_pct_means_more_than(w.yea, (w.yea + w.nay) as u128, w.support_required_pct);
    law_pct_means_more_than(w.yea, w.voting_power, w.min_accept_quorum_pct);
}

/// Casting a vote takes the weight of all who may vote anew: after a cast, the
/// vote's weight of all is the chain's current total power (in an official
/// community) or the token's current supply, whatever the vote held before.
pub proof fn law_cast_takes_current_power(
    params: VotingParams,
    v: VoteView,
    c: ChainView,
    supports: bool,
    voter: Seq<char>,
)
    requires
        cast_vote_spec(params, v, c, supports, voter) is Ok,
    ensures
        total_power_spec(c, params.is_official) is Ok,
        cast_vote_spec(params, v, c, supports, voter)->Ok_0.voting_power == (if params.is_official {
            c.total_power
        } else {
            unsigned_value(c.token_supply->Some_0) as u128
        }),
{
}

/// A rule update is put to the vote whenever it is well formed: in a community
/// that is not official, a `community` event with the method
/// `update_community_voting_rule` and three values, each `-1` or a number (the
/// two shares in `u128`, the open time in `u64`), passes the event check; `-1`
/// in any place is never a reason to refuse it.
pub proof fn law_rule_update_accepted(
    e: EventView,
    community_set: bool,
    apps: Map<Seq<char>, String>,
)
    requires
        e.event_type == "community"@,
        e.method == "update_community_voting_rule"@,
        e.params.len() == 3,
        e.params[0] == "-1"@ || parses_as_u128(e.params[0]),
        e.params[1] == "-1"@ || parses_as_u128(e.params[1]),
        e.params[2] == "-1"@ || parses_as_u64(e.params[2]),
    ensures
        check_event_spec(e, false, community_set, apps) == Ok::<(), VoteError>(()),
{
    reveal_strlit("community");
    reveal_strlit("call_contract");
    assert("community"@.len() != "call_contract"@.len());
}

/// A rule update that takes effect sets each value that is a number and keeps
/// each setting whose value is `-1`; nothing else in the settings changes.
pub proof fn law_rule_update_applied(params: VotingParams, e: EventView)
    requires
        e.params.len() >= 3,
        e.params[0] == "-1"@ || parses_as_u128(e.params[0]),
        e.params[1] == "-1"@ || parses_as_u128(e.params[1]),
        e.params[2] == "-1"@ || parses_as_u64(e.params[2]),
    ensures
        rule_valid(e),
        ({
            let q = rule_applied(params, e);
            &&& q.support_required_pct == if e.params[0] == "-1"@ {
                params.support_required_pct as int
            } else {
                unsigned_value(e.params[0]) as int
            }
            &&& q.min_accept_quorum_pct == if e.params[1] == "-1"@ {
                params.min_accept_quorum_pct as int
            } else {
                unsigned_value(e.params[1]) as int
            }
            &&& q.vote_open_time == if e.params[2] == "-1"@ {
                params.vote_open_time as int
            } else {
                unsigned_value(e.params[2]) as int
            }
            &&& q.acl_app == params.acl_app
            &&& q.community_app == params.community_app
            &&& q.is_official == params.is_official
            &&& q.has_token_address == params.has_token_address
        }),
{
}

} // verus!

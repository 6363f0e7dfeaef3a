//! The staking contract: accepts coins of one denomination, keeps each
//! staker's amount and the total, and sends a staker's amount back on request.

use vstd::prelude::*;
use crate::error::XcaError;
use crate::xca::staking::{ConfigResponse, ExecuteMsg, InstantiateMsg, StateResponse};

verus! {

/// The staking contract's stored configuration.
pub struct Config {
    pub denom_name: String,
}

/// The staking contract's stored state.
pub struct State {
    pub total_staked: u128,
}

/// Coins sent along with a request.
pub struct Coin {
    pub denom: String,
    pub amount: u128,
}

/// The coins that an unstake sends back to the staker.
pub struct BankSend {
    pub denom: String,
    pub amount: u128,
}

/// What a staking request comes to.
pub enum Outcome {
    /// The sender's staked amount is now this.
    Staked { staker_amount: u128 },
    /// These coins go back to the sender.
    Send(BankSend),
}

/// The configuration and state a new staking contract starts with.
pub fn instantiate(msg: InstantiateMsg) -> (r: (Config, State))
    ensures
        r.0.denom_name == msg.denom_name,
        r.1.total_staked == 0,
{
    (Config { denom_name: msg.denom_name }, State { total_staked: 0 })
}

/// The coin counts as a stake: of the staking denomination, and not zero.
pub open spec fn stakable(c: Coin, denom: String) -> bool {
    c.denom@ == denom@ && c.amount > 0
}

/// The index of the first stakable coin of `funds`, or `funds.len()` when there is none.
pub open spec fn stake_index(funds: Seq<Coin>, denom: String) -> nat
    decreases funds.len(),
{
    if funds.len() == 0 {
        0
    } else if stakable(funds[0], denom) {
        0
    } else {
        1 + stake_index(funds.drop_first(), denom)
    }
}

/// The amount a stake adds: that of the first stakable coin sent, if any.
pub open spec fn stake_amount(funds: Seq<Coin>, denom: String) -> Option<u128> {
    let i = stake_index(funds, denom);
    if i < funds.len() {
        Some(funds[i as int].amount)
    } else {
        None
    }
}

/// A coin is stakable exactly when it is of the staking denomination and its
/// amount is positive.
pub proof fn lemma_stakable(c: Coin, denom: String)
    ensures
        stakable(c, denom) <==> (c.denom@ == denom@ && c.amount > 0),
{
}

/// `stake_index` points at the first stakable coin, or past the end.
proof fn lemma_stake_index(funds: Seq<Coin>, denom: String)
    ensures
        stake_index(funds, denom) <= funds.len(),
        stake_index(funds, denom) < funds.len() ==> stakable(funds[stake_index(funds, denom) as int], denom),
        forall|j: int| 0 <= j < stake_index(funds, denom) ==> !stakable(#[trigger] funds[j], denom),
    decreases funds.len(),
{
    if funds.len() > 0 && !stakable(funds[0], denom) {
        let t = funds.drop_first();
        lemma_stake_index(t, denom);
        assert forall|j: int| 0 <= j < stake_index(funds, denom) implies !stakable(#[trigger] funds[j], denom) by {
            if j > 0 {
                assert(funds[j] == t[j - 1]);
            }
        }
    }
}

/// What a stake adds: nothing (the stake is refused) exactly when no coin sent
/// is of the staking denomination with a positive amount; otherwise the amount
/// of the first coin sent that is.
pub proof fn lemma_stake_amount(funds: Seq<Coin>, denom: String)
    ensures
        stake_amount(funds, denom) is None <==> forall|i: int|
            0 <= i < funds.len() ==> !(#[trigger] funds[i].denom@ == denom@ && funds[i].amount > 0),
        stake_amount(funds, denom) matches Some(a) ==> exists|i: int|
            0 <= i < funds.len() && #[trigger] funds[i].denom@ == denom@ && funds[i].amount > 0
                && funds[i].amount == a && forall|j: int|
                0 <= j < i ==> !(#[trigger] funds[j].denom@ == denom@ && funds[j].amount > 0),
{
    lemma_stake_index(funds, denom);
    let k = stake_index(funds, denom) as int;
    if k < funds.len() {
        assert(funds[k].denom@ == denom@ && funds[k].amount > 0);
        assert forall|j: int| 0 <= j < k implies !(#[trigger] funds[j].denom@ == denom@ && funds[j].amount > 0) by {
            assert(!stakable(funds[j], denom));
        }
    } else {
        assert forall|i: int| 0 <= i < funds.len() implies !(#[trigger] funds[i].denom@ == denom@ && funds[i].amount > 0) by {
            assert(!stakable(funds[i], denom));
        }
    }
}

/// An index before which no coin is stakable, and at which one is or the coins
/// end, is `stake_index`.
proof fn lemma_stake_index_at(funds: Seq<Coin>, denom: String, i: int)
    requires
        0 <= i <= funds.len(),
        forall|j: int| 0 <= j < i ==> !stakable(#[trigger] funds[j], denom),
        i < funds.len() ==> stakable(funds[i], denom),
    ensures
        stake_index(funds, denom) == i,
    decreases i,
{
    if i > 0 {
        let t = funds.drop_first();
        assert forall|j: int| 0 <= j < i - 1 implies !stakable(#[trigger] t[j], denom) by {
            assert(t[j] == funds[j + 1]);
        }
        assert(!stakable(funds[0], denom));
        lemma_stake_index_at(t, denom, i - 1);
    }
}

/// The staker's amount and the total both fit a `u128` after the stake.
pub open spec fn stake_fits(state: State, staker_amount: u128, funds: Seq<Coin>, denom: String) -> bool {
    stake_amount(funds, denom) matches Some(a) ==> staker_amount + a <= u128::MAX
        && state.total_staked + a <= u128::MAX
}

/// The amount a stake of `funds` adds: that of the first coin of denomination
/// `denom` with a positive amount, if any.
pub fn stakable_amount(denom: &String, funds: &Vec<Coin>) -> (r: Option<u128>)
    ensures
        r == stake_amount(funds@, *denom),
        r is None <==> forall|i: int|
            0 <= i < funds@.len() ==> !(#[trigger] funds@[i].denom@ == denom@ && funds@[i].amount > 0),
        r matches Some(a) ==> exists|i: int|
            0 <= i < funds@.len() && #[trigger] funds@[i].denom@ == denom@ && funds@[i].amount > 0
                && funds@[i].amount == a,
{
    proof {
        lemma_stake_amount(funds@, *denom);
    }
    let mut i: usize = 0;
    while i < funds.len() && !(funds[i].denom == *denom && funds[i].amount > 0)
        invariant
            i <= funds@.len(),
            forall|j: int| 0 <= j < i ==> !stakable(#[trigger] funds@[j], *denom),
        decreases funds@.len() - i,
    {
        i = i + 1;
    }
    proof {
        lemma_stake_index_at(funds@, *denom, i as int);
    }
    if i == funds.len() {
        None
    } else {
        Some(funds[i].amount)
    }
}

/// Stakes the first stakable coin sent: the staker's amount and the total both
/// grow by its amount. Without a stakable coin the request is refused and the
/// state stays. (An addition past `u128::MAX` aborts the request.)
pub fn stake(config: &Config, state: &mut State, staker_amount: u128, funds: &Vec<Coin>) -> (r:
    Result<u128, XcaError>)
    requires
        stake_fits(*old(state), staker_amount, funds@, config.denom_name),
    ensures
        match stake_amount(funds@, config.denom_name) {
            Some(a) => {
                &&& r == Ok::<u128, XcaError>((staker_amount + a) as u128)
                &&& final(state).total_staked == old(state).total_staked + a
            },
            None => {
                &&& r matches Err(XcaError::NoStakableDenom)
                &&& final(state).total_staked == old(state).total_staked
            },
        },
{
    match stakable_amount(&config.denom_name, funds) {
        None => Err(XcaError::NoStakableDenom),
        Some(amount) => {
            let new_staker = staker_amount + amount;
            state.total_staked = state.total_staked + amount;
            Ok(new_staker)
        },
    }
}

/// An unstake sends the staker's whole amount back in the staking denomination.
/// It changes neither the staker's amount nor the total.
pub fn unstake(config: &Config, staker_amount: u128) -> (r: BankSend)
    ensures
        r.denom == config.denom_name,
        r.amount == staker_amount,
{
    BankSend { denom: config.denom_name.clone(), amount: staker_amount }
}

/// Carries out a staking request from a sender whose staked amount is `staker_amount`.
pub fn execute(
    config: &Config,
    state: &mut State,
    msg: ExecuteMsg,
    staker_amount: u128,
    funds: &Vec<Coin>,
) -> (r: Result<Outcome, XcaError>)
    requires
        msg is Stake ==> stake_fits(*old(state), staker_amount, funds@, config.denom_name),
    ensures
        msg is Stake ==> match stake_amount(funds@, config.denom_name) {
            Some(a) => {
                &&& r matches Ok(Outcome::Staked { staker_amount: s }) && s == staker_amount + a
                &&& final(state).total_staked == old(state).total_staked + a
            },
            None => {
                &&& r matches Err(XcaError::NoStakableDenom)
                &&& final(state).total_staked == old(state).total_staked
            },
        },
        msg is Unstake ==> {
            &&& r matches Ok(Outcome::Send(send)) && send.denom == config.denom_name && send.amount
                == staker_amount
            &&& final(state).total_staked == old(state).total_staked
        },
{
    match msg {
        ExecuteMsg::Stake {} => match stake(config, state, staker_amount, funds) {
            Ok(s) => Ok(Outcome::Staked { staker_amount: s }),
            Err(e) => Err(e),
        },
        ExecuteMsg::Unstake {} => Ok(Outcome::Send(unstake(config, staker_amount))),
    }
}

/// The answer to a config query.
pub fn query_config(config: &Config) -> (r: ConfigResponse)
    ensures
        r.denom_name == config.denom_name,
{
    ConfigResponse { denom_name: config.denom_name.clone() }
}

/// The answer to a state query.
pub fn query_state(state: &State) -> (r: StateResponse)
    ensures
        r.total_staked == state.total_staked,
{
    StateResponse { total_staked: state.total_staked }
}

/// One staker's entry in the stakers' store.
pub struct StakeEntry {
    pub staker: Seq<char>,
    pub amount: u128,
}

/// The sum of all staked amounts in the store `l`.
pub open spec fn ledger_sum(l: Seq<StakeEntry>) -> int
    decreases l.len(),
{
    if l.len() == 0 {
        0
    } else {
        ledger_sum(l.drop_last()) + l.last().amount
    }
}

/// The index of `who`'s first entry in `l`, or `l.len()` when there is none.
pub open spec fn ledger_index(l: Seq<StakeEntry>, who: Seq<char>) -> nat
    decreases l.len(),
{
    if l.len() == 0 {
        0
    } else if l[0].staker == who {
        0
    } else {
        1 + ledger_index(l.drop_first(), who)
    }
}

/// What the store holds for `who`: its amount, or 0 when it holds nothing.
pub open spec fn ledger_get(l: Seq<StakeEntry>, who: Seq<char>) -> u128 {
    let i = ledger_index(l, who);
    if i < l.len() {
        l[i as int].amount
    } else {
        0
    }
}

/// The store after saving `amount` for `who`: its entry replaced, or a new one added.
pub open spec fn ledger_set(l: Seq<StakeEntry>, who: Seq<char>, amount: u128) -> Seq<StakeEntry> {
    let i = ledger_index(l, who);
    if i < l.len() {
        l.update(i as int, StakeEntry { staker: who, amount })
    } else {
        l.push(StakeEntry { staker: who, amount })
    }
}

/// Replacing the amount at one index changes the sum by the difference.
proof fn lemma_ledger_sum_update(l: Seq<StakeEntry>, i: int, e: StakeEntry)
    requires
        0 <= i < l.len(),
    ensures
        ledger_sum(l.update(i, e)) == ledger_sum(l) - l[i].amount + e.amount,
    decreases l.len(),
{
    let u = l.update(i, e);
    if i == l.len() - 1 {
        assert(u.drop_last() =~= l.drop_last());
    } else {
        lemma_ledger_sum_update(l.drop_last(), i, e);
        assert(u.drop_last() =~= l.drop_last().update(i, e));
    }
}

/// `ledger_index` is below the length exactly when it points at an entry of `who`.
proof fn lemma_ledger_index(l: Seq<StakeEntry>, who: Seq<char>)
    ensures
        ledger_index(l, who) <= l.len(),
        ledger_index(l, who) < l.len() ==> l[ledger_index(l, who) as int].staker == who,
    decreases l.len(),
{
    if l.len() > 0 && l[0].staker != who {
        lemma_ledger_index(l.drop_first(), who);
    }
}

/// Saving `amount` for `who` changes the sum by `amount` less what `who` held.
pub proof fn lemma_ledger_set_sum(l: Seq<StakeEntry>, who: Seq<char>, amount: u128)
    ensures
        ledger_sum(ledger_set(l, who, amount)) == ledger_sum(l) - ledger_get(l, who) + amount,
{
    lemma_ledger_index(l, who);
    let i = ledger_index(l, who);
    if i < l.len() {
        lemma_ledger_sum_update(l, i as int, StakeEntry { staker: who, amount });
    } else {
        assert(l.push(StakeEntry { staker: who, amount }).drop_last() =~= l);
    }
}

/// A new staking contract's total matches its empty stakers' store.
pub proof fn lemma_instantiate_total()
    ensures
        ledger_sum(Seq::<StakeEntry>::empty()) == 0,
{
}

/// A stake keeps the total equal to the sum of the stakers' store: when the
/// total matches the store before and neither addition overflows (it aborts otherwise), saving the staker's new amount (what it held
/// plus the stake) leaves a store whose sum is the new total. An unstake writes
/// neither, so it keeps the equality as well.
pub proof fn lemma_stake_keeps_total(
    l: Seq<StakeEntry>,
    who: Seq<char>,
    total: u128,
    funds: Seq<Coin>,
    denom: String,
)
    requires
        total == ledger_sum(l),
        stake_amount(funds, denom) is Some,
        stake_fits(State { total_staked: total }, ledger_get(l, who), funds, denom),
    ensures
        ({
            let a = stake_amount(funds, denom)->Some_0;
            ledger_sum(ledger_set(l, who, (ledger_get(l, who) + a) as u128)) == total + a
        }),
{
    let a = stake_amount(funds, denom)->Some_0;
    lemma_ledger_set_sum(l, who, (ledger_get(l, who) + a) as u128);
}

} // verus!

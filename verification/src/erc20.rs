//! An ERC-20 token: balances, allowances, issuing and burning by its creator.

use vstd::prelude::*;
use std::collections::BTreeMap;
use crate::origin::AccountId;
use crate::ledger::{map_sum, lemma_map_sum_bounds, lemma_map_sum_insert, lemma_map_sum_two};

verus! {

/// An amount of the token.
pub type Balance = u128;

/// The report of tokens moving between accounts; `None` on the side where
/// tokens were issued or burnt.
#[derive(Clone, Copy, Debug, PartialEq, Eq)]
pub struct Transfer {
    pub from: Option<AccountId>,
    pub to: Option<AccountId>,
    pub value: Balance,
}

/// The report of `owner` allowing `spender` to spend `value` of its tokens.
#[derive(Clone, Copy, Debug, PartialEq, Eq)]
pub struct Approval {
    pub owner: AccountId,
    pub spender: AccountId,
    pub value: Balance,
}

/// What the token reports.
#[derive(Clone, Copy, Debug, PartialEq, Eq)]
pub enum Erc20Event {
    Transfer(Transfer),
    Approval(Approval),
}

/// Why a token call was refused.
#[derive(Clone, Copy, Debug, PartialEq, Eq, Structural)]
pub enum Error {
    /// The paying account holds less than the amount.
    InsufficientBalance,
    /// The caller may spend less than the amount.
    InsufficientAllowance,
    /// Only the account that deployed the token may do this.
    OnlyForCreator,
}

/// A message sent to the token, with its caller.
#[derive(Clone, Copy, Debug, PartialEq, Eq)]
pub enum Erc20Message {
    Transfer { caller: AccountId, to: AccountId, value: Balance },
    Approve { caller: AccountId, spender: AccountId, value: Balance },
    TransferFrom { caller: AccountId, from: AccountId, to: AccountId, value: Balance },
    Issue { caller: AccountId, amount: Balance },
    Burn { caller: AccountId, amount: Balance },
}

/// The content of the token's storage.
#[verifier::ext_equal]
pub struct Erc20Model {
    pub creator: AccountId,
    pub name: Seq<u8>,
    pub symbol: Seq<u8>,
    pub total_supply: Balance,
    pub decimals: u8,
    pub balances: Map<AccountId, Balance>,
    pub allowances: Map<(AccountId, AccountId), Balance>,
    pub events: Seq<Erc20Event>,
}

/// The balance of `who` in `balances`: 0 where none is recorded.
pub open spec fn balance_in(balances: Map<AccountId, Balance>, who: AccountId) -> Balance {
    if balances.contains_key(who) {
        balances[who]
    } else {
        0
    }
}

/// The balances after `value` left `from` (where it is an account) and then
/// reached `to` (where it is an account).
pub open spec fn moved(
    balances: Map<AccountId, Balance>,
    from: Option<AccountId>,
    to: Option<AccountId>,
    value: Balance,
) -> Map<AccountId, Balance> {
    let debited = match from {
        Some(f) => balances.insert(f, (balance_in(balances, f) - value) as Balance),
        None => balances,
    };
    match to {
        Some(t) => debited.insert(t, (balance_in(debited, t) + value) as Balance),
        None => debited,
    }
}

impl Erc20Model {
    /// The balances add up to the total supply.
    pub open spec fn wf(self) -> bool {
        &&& self.balances.dom().finite()
        &&& map_sum(self.balances) == self.total_supply as int
    }

    /// The balance of `who`.
    pub open spec fn balance_of(self, who: AccountId) -> Balance {
        balance_in(self.balances, who)
    }

    /// What `owner` allows `spender` to spend: 0 where nothing is recorded.
    pub open spec fn allowance_of(self, owner: AccountId, spender: AccountId) -> Balance {
        if self.allowances.contains_key((owner, spender)) {
            self.allowances[(owner, spender)]
        } else {
            0
        }
    }

    /// Whether `value` can leave `from`: always where tokens are issued.
    pub open spec fn can_pay(self, from: Option<AccountId>, value: Balance) -> bool {
        match from {
            Some(f) => self.balance_of(f) >= value,
            None => true,
        }
    }

    /// The token after `value` moved from `from` to `to`, reported.
    pub open spec fn after_move(self, from: Option<AccountId>, to: Option<AccountId>, value: Balance) -> Self {
        Erc20Model {
            balances: moved(self.balances, from, to, value),
            events: self.events.push(Erc20Event::Transfer(Transfer { from, to, value })),
            ..self
        }
    }

    /// The token after `owner` allowed `spender` to spend `value`, reported.
    pub open spec fn after_approve(self, owner: AccountId, spender: AccountId, value: Balance) -> Self {
        Erc20Model {
            allowances: self.allowances.insert((owner, spender), value),
            events: self.events.push(Erc20Event::Approval(Approval { owner, spender, value })),
            ..self
        }
    }

    /// The token with the allowance of `(owner, spender)` set to `value`.
    pub open spec fn with_allowance(self, owner: AccountId, spender: AccountId, value: Balance) -> Self {
        Erc20Model { allowances: self.allowances.insert((owner, spender), value), ..self }
    }

    /// The token after `msg`, and whether it succeeded; a refused message
    /// changes nothing.
    pub open spec fn apply(self, msg: Erc20Message) -> (Self, bool) {
        match msg {
            Erc20Message::Transfer { caller, to, value } => if self.balance_of(caller) >= value {
                (self.after_move(Some(caller), Some(to), value), true)
            } else {
                (self, false)
            },
            Erc20Message::Approve { caller, spender, value } => (self.after_approve(caller, spender, value), true),
            Erc20Message::TransferFrom { caller, from, to, value } => if self.allowance_of(from, caller) >= value
                && self.balance_of(from) >= value {
                (
                    self.after_move(Some(from), Some(to), value).with_allowance(
                        from,
                        caller,
                        (self.allowance_of(from, caller) - value) as Balance,
                    ),
                    true,
                )
            } else {
                (self, false)
            },
            Erc20Message::Issue { caller, amount } => if caller == self.creator {
                (self.with_total_supply((self.total_supply + amount) as Balance).after_move(None, Some(caller), amount), true)
            } else {
                (self, false)
            },
            Erc20Message::Burn { caller, amount } => if self.balance_of(caller) >= amount {
                (self.after_move(Some(caller), None, amount).with_total_supply((self.total_supply - amount) as Balance), true)
            } else {
                (self, false)
            },
        }
    }

    /// The token with the total supply set to `total`.
    pub open spec fn with_total_supply(self, total: Balance) -> Self {
        Erc20Model { total_supply: total, ..self }
    }
}

/// An ERC-20 token.
pub struct Erc20 {
    creator: AccountId,
    name: Vec<u8>,
    symbol: Vec<u8>,
    total_supply: Balance,
    decimals: u8,
    balances: BTreeMap<AccountId, Balance>,
    allowances: BTreeMap<(AccountId, AccountId), Balance>,
    events: Vec<Erc20Event>,
}

impl View for Erc20 {
    type V = Erc20Model;

    closed spec fn view(&self) -> Erc20Model {
        Erc20Model {
            creator: self.creator,
            name: self.name@,
            symbol: self.symbol@,
            total_supply: self.total_supply,
            decimals: self.decimals,
            balances: self.balances@,
            allowances: self.allowances@,
            events: self.events@,
        }
    }
}

impl Erc20 {
    /// Deploys a token on behalf of `caller`, who receives the whole `total_supply`.
    pub fn new(caller: AccountId, name: Vec<u8>, symbol: Vec<u8>, total_supply: Balance, decimals: u8) -> (s: Self)
        ensures
            s@ == (Erc20Model {
                creator: caller,
                name: name@,
                symbol: symbol@,
                total_supply,
                decimals,
                balances: Map::empty().insert(caller, total_supply),
                allowances: Map::empty(),
                events: seq![Erc20Event::Transfer(Transfer { from: None, to: Some(caller), value: total_supply })],
            }),
            s@.wf(),
    {
        let mut balances = BTreeMap::new();
        balances.insert(caller, total_supply);
        let mut events = Vec::new();
        events.push(Erc20Event::Transfer(Transfer { from: None, to: Some(caller), value: total_supply }));
        let s = Erc20 {
            creator: caller,
            name,
            symbol,
            total_supply,
            decimals,
            balances,
            allowances: BTreeMap::new(),
            events,
        };
        proof {
            lemma_map_sum_insert(Map::<AccountId, Balance>::empty(), caller, total_supply);
            assert(map_sum(Map::<AccountId, Balance>::empty()) == 0);
        }
        s
    }

    /// The token's name.
    pub fn name(&self) -> (r: Vec<u8>)
        ensures
            r@ == self@.name,
    {
        self.name.clone()
    }

    /// The token's symbol.
    pub fn symbol(&self) -> (r: Vec<u8>)
        ensures
            r@ == self@.symbol,
    {
        self.symbol.clone()
    }

    /// How many tokens exist.
    pub fn total_supply(&self) -> (r: Balance)
        ensures
            r == self@.total_supply,
    {
        self.total_supply
    }

    /// The number of decimals of the token's unit.
    pub fn decimals(&self) -> (r: u8)
        ensures
            r == self@.decimals,
    {
        self.decimals
    }

    /// The events reported so far, oldest first.
    pub fn events(&self) -> (r: &Vec<Erc20Event>)
        ensures
            r@ == self@.events,
    {
        &self.events
    }

    /// The balance of `of`.
    pub fn balance_of(&self, of: AccountId) -> (r: Balance)
        ensures
            r == self@.balance_of(of),
    {
        match self.balances.get(&of) {
            Some(b) => *b,
            None => 0,
        }
    }

    /// What `owner` allows `spender` to spend.
    pub fn allowance(&self, owner: AccountId, spender: AccountId) -> (r: Balance)
        ensures
            r == self@.allowance_of(owner, spender),
    {
        match self.allowances.get(&(owner, spender)) {
            Some(a) => *a,
            None => 0,
        }
    }

    /// Moves `value` from `from` to `to` and reports it; where `from` is an
    /// account that holds less, refuses with `InsufficientBalance`.
    fn transfer_from_to(&mut self, from: Option<AccountId>, to: Option<AccountId>, value: Balance) -> (r: Result<(), Error>)
        requires
            old(self)@.balances.dom().finite(),
            old(self)@.can_pay(from, value) && to is Some && from != to ==> old(self)@.balance_of(to->0) + value <= Balance::MAX,
        ensures
            old(self)@.can_pay(from, value) ==> r == Ok::<(), Error>(()) && final(self)@ == old(self)@.after_move(from, to, value),
            !old(self)@.can_pay(from, value) ==> r == Err::<(), Error>(Error::InsufficientBalance) && final(self)@ == old(self)@,
            map_sum(final(self)@.balances) == map_sum(old(self)@.balances) + (if from is None && r is Ok { value as int } else { 0 })
                - (if to is None && r is Ok { value as int } else { 0 }),
            final(self)@.balances.dom().finite(),
    {
        let ghost b0 = self@.balances;
        if let Some(from_account) = from {
            let from_balance = self.balance_of(from_account);
            if from_balance < value {
                return Err(Error::InsufficientBalance);
            }
            self.balances.insert(from_account, from_balance - value);
            proof {
                lemma_map_sum_insert(b0, from_account, (from_balance - value) as Balance);
            }
        }
        let ghost b1 = self@.balances;
        if let Some(to_account) = to {
            let to_balance = self.balance_of(to_account);
            assert(to_balance + value <= Balance::MAX);
            self.balances.insert(to_account, to_balance + value);
            proof {
                lemma_map_sum_insert(b1, to_account, (to_balance + value) as Balance);
            }
        }
        self.events.push(Erc20Event::Transfer(Transfer { from, to, value }));
        Ok(())
    }

    /// Moves `value` of the caller's tokens to `to`.
    pub fn transfer(&mut self, caller: AccountId, to: AccountId, value: Balance) -> (r: Result<(), Error>)
        requires
            old(self)@.wf(),
        ensures
            old(self)@.balance_of(caller) >= value ==> r == Ok::<(), Error>(()) && final(self)@ == old(self)@.after_move(Some(caller), Some(to), value),
            old(self)@.balance_of(caller) < value ==> r == Err::<(), Error>(Error::InsufficientBalance) && final(self)@ == old(self)@,
            final(self)@ == old(self)@.apply(Erc20Message::Transfer { caller, to, value }).0,
            (r is Ok) == old(self)@.apply(Erc20Message::Transfer { caller, to, value }).1,
            final(self)@.wf(),
    {
        proof {
            if caller != to {
                lemma_map_sum_two(self@.balances, caller, to);
            }
        }
        self.transfer_from_to(Some(caller), Some(to), value)
    }

    /// Allows `spender` to spend `value` of the caller's tokens, in place of
    /// any earlier allowance.
    pub fn approve(&mut self, caller: AccountId, spender: AccountId, value: Balance) -> (r: Result<(), Error>)
        requires
            old(self)@.wf(),
        ensures
            r == Ok::<(), Error>(()),
            final(self)@ == old(self)@.after_approve(caller, spender, value),
            final(self)@ == old(self)@.apply(Erc20Message::Approve { caller, spender, value }).0,
            (r is Ok) == old(self)@.apply(Erc20Message::Approve { caller, spender, value }).1,
            final(self)@.wf(),
    {
        self.allowances.insert((caller, spender), value);
        self.events.push(Erc20Event::Approval(Approval { owner: caller, spender, value }));
        Ok(())
    }

    /// Moves `value` of `from`'s tokens to `to`, within what `from` allows the
    /// caller to spend, and lowers that allowance by `value`.
    pub fn transfer_from(&mut self, caller: AccountId, from: AccountId, to: AccountId, value: Balance) -> (r: Result<(), Error>)
        requires
            old(self)@.wf(),
        ensures
            old(self)@.allowance_of(from, caller) < value ==> r == Err::<(), Error>(Error::InsufficientAllowance) && final(self)@ == old(self)@,
            old(self)@.allowance_of(from, caller) >= value && old(self)@.balance_of(from) < value ==> r == Err::<(), Error>(Error::InsufficientBalance)
                && final(self)@ == old(self)@,
            old(self)@.allowance_of(from, caller) >= value && old(self)@.balance_of(from) >= value ==> r == Ok::<(), Error>(())
                && final(self)@ == old(self)@.after_move(Some(from), Some(to), value).with_allowance(
                from,
                caller,
                (old(self)@.allowance_of(from, caller) - value) as Balance,
            ),
            final(self)@ == old(self)@.apply(Erc20Message::TransferFrom { caller, from, to, value }).0,
            (r is Ok) == old(self)@.apply(Erc20Message::TransferFrom { caller, from, to, value }).1,
            final(self)@.wf(),
    {
        let allowance = self.allowance(from, caller);
        if allowance < value {
            return Err(Error::InsufficientAllowance);
        }
        proof {
            if from != to {
                lemma_map_sum_two(self@.balances, from, to);
            }
        }
        match self.transfer_from_to(Some(from), Some(to), value) {
            Ok(()) => {},
            Err(e) => return Err(e),
        }
        self.allowances.insert((from, caller), allowance - value);
        Ok(())
    }

    /// Issues `amount` new tokens to the creator; refused for anyone else.
    pub fn issue(&mut self, caller: AccountId, amount: Balance) -> (r: Result<(), Error>)
        requires
            old(self)@.wf(),
            caller == old(self)@.creator ==> old(self)@.total_supply + amount <= Balance::MAX,
        ensures
            caller != old(self)@.creator ==> r == Err::<(), Error>(Error::OnlyForCreator) && final(self)@ == old(self)@,
            caller == old(self)@.creator ==> r == Ok::<(), Error>(()) && final(self)@ == old(self)@.with_total_supply(
                (old(self)@.total_supply + amount) as Balance,
            ).after_move(None, Some(caller), amount),
            final(self)@ == old(self)@.apply(Erc20Message::Issue { caller, amount }).0,
            (r is Ok) == old(self)@.apply(Erc20Message::Issue { caller, amount }).1,
            final(self)@.wf(),
    {
        if caller != self.creator {
            return Err(Error::OnlyForCreator);
        }
        proof { lemma_map_sum_bounds(self@.balances, caller); }
        let total_supply = self.total_supply();
        self.total_supply = total_supply + amount;
        match self.transfer_from_to(None, Some(caller), amount) {
            Ok(()) => {},
            Err(e) => return Err(e),
        }
        Ok(())
    }

    /// Burns `amount` of the caller's tokens.
    pub fn burn(&mut self, caller: AccountId, amount: Balance) -> (r: Result<(), Error>)
        requires
            old(self)@.wf(),
        ensures
            old(self)@.balance_of(caller) < amount ==> r == Err::<(), Error>(Error::InsufficientBalance) && final(self)@ == old(self)@,
            old(self)@.balance_of(caller) >= amount ==> r == Ok::<(), Error>(()) && final(self)@ == old(self)@.after_move(
                Some(caller),
                None,
                amount,
            ).with_total_supply((old(self)@.total_supply - amount) as Balance),
            final(self)@ == old(self)@.apply(Erc20Message::Burn { caller, amount }).0,
            (r is Ok) == old(self)@.apply(Erc20Message::Burn { caller, amount }).1,
            final(self)@.wf(),
    {
        proof { lemma_map_sum_bounds(self@.balances, caller); }
        match self.transfer_from_to(Some(caller), None, amount) {
            Ok(()) => {},
            Err(e) => return Err(e),
        }
        let total_supply = self.total_supply();
        self.total_supply = total_supply - amount;
        Ok(())
    }
}


/// A transfer between two accounts debits the payer and credits the payee by
/// the amount, and leaves every other balance and the total supply as they were.
pub proof fn lemma_transfer_moves_value(m: Erc20Model, from: AccountId, to: AccountId, value: Balance)
    requires
        m.wf(),
        from != to,
        m.balance_of(from) >= value,
    ensures
        m.after_move(Some(from), Some(to), value).balance_of(from) == m.balance_of(from) - value,
        m.after_move(Some(from), Some(to), value).balance_of(to) == m.balance_of(to) + value,
        forall|x: AccountId| x != from && x != to ==> #[trigger] m.after_move(Some(from), Some(to), value).balance_of(x) == m.balance_of(x),
        m.after_move(Some(from), Some(to), value).total_supply == m.total_supply,
{
    lemma_map_sum_bounds(m.balances, to);
    lemma_map_sum_bounds(m.balances, from);
    lemma_map_sum_insert(m.balances, from, (m.balance_of(from) - value) as Balance);
    let debited = m.balances.insert(from, (m.balance_of(from) - value) as Balance);
    lemma_map_sum_bounds(debited, to);
}

/// A transfer to oneself leaves every balance as it was.
pub proof fn lemma_self_transfer_keeps_balances(m: Erc20Model, who: AccountId, value: Balance)
    requires
        m.wf(),
        m.balance_of(who) >= value,
    ensures
        forall|x: AccountId| #[trigger] m.after_move(Some(who), Some(who), value).balance_of(x) == m.balance_of(x),
{
}

/// Sending an amount and receiving it back restores every balance.
pub proof fn lemma_transfer_round_trip(m: Erc20Model, a: AccountId, b: AccountId, value: Balance)
    requires
        m.wf(),
        m.balance_of(a) >= value,
    ensures
        m.after_move(Some(a), Some(b), value).balance_of(b) >= value,
        forall|x: AccountId| #[trigger] m.after_move(Some(a), Some(b), value).after_move(Some(b), Some(a), value).balance_of(x)
            == m.balance_of(x),
{
    if a != b {
        lemma_transfer_moves_value(m, a, b, value);
    }
}

/// After the owner approves a spender, the allowance of that pair is the approved
/// amount, and every other allowance is unchanged.
pub proof fn lemma_approve_sets_allowance(m: Erc20Model, owner: AccountId, spender: AccountId, value: Balance)
    ensures
        m.after_approve(owner, spender, value).allowance_of(owner, spender) == value,
        forall|o: AccountId, s: AccountId| (o, s) != (owner, spender) ==>
            #[trigger] m.after_approve(owner, spender, value).allowance_of(o, s) == m.allowance_of(o, s),
{
}

/// Issuing an amount to the creator and then burning it from the creator
/// restores the total supply and every balance.
pub proof fn lemma_issue_then_burn(m: Erc20Model, amount: Balance)
    requires
        m.wf(),
        m.total_supply + amount <= Balance::MAX,
    ensures
        ({
            let issued = m.with_total_supply((m.total_supply + amount) as Balance).after_move(None, Some(m.creator), amount);
            &&& issued.balance_of(m.creator) >= amount
            &&& issued.after_move(Some(m.creator), None, amount).with_total_supply((issued.total_supply - amount) as Balance).total_supply
                == m.total_supply
            &&& forall|x: AccountId| #[trigger] issued.after_move(Some(m.creator), None, amount).balance_of(x) == m.balance_of(x)
        }),
{
    lemma_map_sum_bounds(m.balances, m.creator);
}


/// A spend through `transfer_from` lowers the spender's allowance by the amount
/// and leaves every other allowance as it was, so over any run of spends without
/// a new approval a spender moves at most what it was allowed.
pub proof fn lemma_transfer_from_spends_allowance(
    m: Erc20Model,
    caller: AccountId,
    from: AccountId,
    to: AccountId,
    value: Balance,
)
    requires
        m.allowance_of(from, caller) >= value,
    ensures
        ({
            let after = m.after_move(Some(from), Some(to), value).with_allowance(
                from,
                caller,
                (m.allowance_of(from, caller) - value) as Balance,
            );
            &&& after.allowance_of(from, caller) == m.allowance_of(from, caller) - value
            &&& forall|o: AccountId, s: AccountId| (o, s) != (from, caller) ==> #[trigger] after.allowance_of(o, s) == m.allowance_of(o, s)
        }),
{
}

/// No message changes the creator, name, symbol or decimals of the token.
pub proof fn lemma_messages_keep_metadata(m: Erc20Model, a: AccountId, b: AccountId, v: Balance, from: Option<AccountId>, to: Option<AccountId>)
    ensures
        m.after_move(from, to, v).creator == m.creator && m.after_move(from, to, v).name == m.name
            && m.after_move(from, to, v).symbol == m.symbol && m.after_move(from, to, v).decimals == m.decimals,
        m.after_approve(a, b, v).creator == m.creator && m.after_approve(a, b, v).name == m.name
            && m.after_approve(a, b, v).symbol == m.symbol && m.after_approve(a, b, v).decimals == m.decimals,
        m.with_allowance(a, b, v).creator == m.creator && m.with_allowance(a, b, v).name == m.name
            && m.with_allowance(a, b, v).symbol == m.symbol && m.with_allowance(a, b, v).decimals == m.decimals,
        m.with_total_supply(v).creator == m.creator && m.with_total_supply(v).name == m.name
            && m.with_total_supply(v).symbol == m.symbol && m.with_total_supply(v).decimals == m.decimals,
{
}


/// The token after the messages `msgs`, sent in order.
pub open spec fn run(m: Erc20Model, msgs: Seq<Erc20Message>) -> Erc20Model
    decreases msgs.len(),
{
    if msgs.len() == 0 {
        m
    } else {
        run(m, msgs.drop_last()).apply(msgs.last()).0
    }
}

/// What `caller` moved out of `from`'s tokens by successful `transfer_from`
/// messages among `msgs`.
pub open spec fn spent_by(m: Erc20Model, msgs: Seq<Erc20Message>, from: AccountId, caller: AccountId) -> int
    decreases msgs.len(),
{
    if msgs.len() == 0 {
        0
    } else {
        let before = run(m, msgs.drop_last());
        spent_by(m, msgs.drop_last(), from, caller) + match msgs.last() {
            Erc20Message::TransferFrom { caller: c, from: f, to: _, value } => if c == caller && f == from
                && before.apply(msgs.last()).1 {
                value as int
            } else {
                0
            },
            _ => 0,
        }
    }
}

/// No run of messages changes the creator, name, symbol or decimals.
pub proof fn lemma_run_keeps_metadata(m: Erc20Model, msgs: Seq<Erc20Message>)
    ensures
        run(m, msgs).creator == m.creator,
        run(m, msgs).name == m.name,
        run(m, msgs).symbol == m.symbol,
        run(m, msgs).decimals == m.decimals,
    decreases msgs.len(),
{
    if msgs.len() > 0 {
        lemma_run_keeps_metadata(m, msgs.drop_last());
    }
}

/// Over any run of messages in which `from` approves nothing to `caller`,
/// what `caller` spends of `from`'s tokens and what it may still spend add up to
/// what it was allowed at the start: a spender never moves more than it was
/// allowed.
pub proof fn lemma_spending_within_allowance(m: Erc20Model, msgs: Seq<Erc20Message>, from: AccountId, caller: AccountId)
    requires
        forall|i: int| 0 <= i < msgs.len() ==> !(#[trigger] msgs[i] matches Erc20Message::Approve { caller: c, spender: s, value: _ }
            && c == from && s == caller),
    ensures
        spent_by(m, msgs, from, caller) + run(m, msgs).allowance_of(from, caller) == m.allowance_of(from, caller),
        spent_by(m, msgs, from, caller) <= m.allowance_of(from, caller),
        spent_by(m, msgs, from, caller) >= 0,
    decreases msgs.len(),
{
    if msgs.len() > 0 {
        let prefix = msgs.drop_last();
        assert forall|i: int| 0 <= i < prefix.len() implies !(#[trigger] prefix[i] matches Erc20Message::Approve { caller: c, spender: s, value: _ }
            && c == from && s == caller) by {
            assert(prefix[i] == msgs[i]);
        }
        lemma_spending_within_allowance(m, prefix, from, caller);
        assert(msgs[msgs.len() - 1] == msgs.last());
    }
}

} // verus!

//! The ledger's operations: initialization, the state transitions and the
//! queries. Each transition either commits all its effects or fails and
//! leaves the ledger exactly as it was.
use vstd::prelude::*;
use crate::error::ContractError;
use crate::msg::{
    Action, AllowanceInfo, AllowanceResponse, ExecuteMsg, InstantiateMsg, MinterResponse, QueryMsg,
    QueryResponse, SpenderAllowanceInfo,
};
use crate::pagination::{effective_limit, is_page, limit_of, opt_view, page_keys, views};
use crate::state::{
    allowance_in, balance_in, owners_in, spenders_in, Allowance, BlockInfo, Expiration, Ledger,
    LedgerView, MinterData, TokenInfo,
};

verus! {

/// The metadata record that initialization writes: the initializing caller
/// becomes the minter when a mint authority is requested.
pub open spec fn initial_token(msg: InstantiateMsg, caller: String) -> TokenInfo {
    TokenInfo {
        name: msg.name,
        symbol: msg.symbol,
        decimals: msg.decimals,
        total_supply: msg.total_supply,
        mint: match msg.mint {
            Some(m) => Some(MinterData { minter: caller, cap: m.cap }),
            None => None,
        },
    }
}

/// The outcome of initialization.
pub open spec fn instantiate_spec(
    pre: LedgerView,
    post: LedgerView,
    caller: String,
    msg: InstantiateMsg,
    r: Result<(), ContractError>,
) -> bool {
    if !msg.valid() {
        r == Err::<(), ContractError>(ContractError::InvalidMetadata) && post == pre
    } else {
        &&& r == Ok::<(), ContractError>(())
        &&& post == LedgerView {
            token: Some(initial_token(msg, caller)),
            balances: pre.balances.insert(caller@, msg.total_supply),
            balance_sum: pre.balance_sum - balance_in(pre.balances, caller@) + msg.total_supply,
            ..pre
        }
    }
}

/// Why moving `amount` from `from` to `to` is refused, if it is.
pub open spec fn transfer_error(
    b: Map<Seq<char>, u128>,
    from: Seq<char>,
    to: Seq<char>,
    amount: u128,
) -> Option<ContractError> {
    if balance_in(b, from) < amount {
        Some(ContractError::InsufficientFunds)
    } else if from != to && balance_in(b, to) + amount > u128::MAX {
        Some(ContractError::ArithmeticOverflow)
    } else {
        None
    }
}

/// The balances after moving `amount` from `from` to `to`.
pub open spec fn moved(b: Map<Seq<char>, u128>, from: Seq<char>, to: Seq<char>, amount: u128) -> Map<
    Seq<char>,
    u128,
> {
    if from == to {
        b
    } else {
        b.insert(from, (balance_in(b, from) - amount) as u128).insert(
            to,
            (balance_in(b, to) + amount) as u128,
        )
    }
}

/// The outcome of a transfer.
pub open spec fn transfer_spec(
    pre: LedgerView,
    post: LedgerView,
    sender: Seq<char>,
    recipient: Seq<char>,
    amount: u128,
    r: Result<(), ContractError>,
) -> bool {
    match transfer_error(pre.balances, sender, recipient, amount) {
        Some(e) => r == Err::<(), ContractError>(e) && post == pre,
        None => r == Ok::<(), ContractError>(()) && post == LedgerView {
            balances: moved(pre.balances, sender, recipient, amount),
            ..pre
        },
    }
}

/// `caller` is the configured minter of an initialized ledger.
pub open spec fn is_minter(token: Option<TokenInfo>, caller: Seq<char>) -> bool {
    &&& token is Some
    &&& token->Some_0.mint is Some
    &&& token->Some_0.mint->Some_0.minter@ == caller
}

/// The outcome of a mint.
pub open spec fn mint_spec(
    pre: LedgerView,
    post: LedgerView,
    caller: Seq<char>,
    recipient: Seq<char>,
    amount: u128,
    r: Result<(), ContractError>,
) -> bool {
    if !is_minter(pre.token, caller) {
        r == Err::<(), ContractError>(ContractError::Unauthorized) && post == pre
    } else {
        let t = pre.token->Some_0;
        let cap = t.mint->Some_0.cap;
        let br = balance_in(pre.balances, recipient);
        if t.total_supply + amount > u128::MAX {
            r == Err::<(), ContractError>(ContractError::ArithmeticOverflow) && post == pre
        } else if cap is Some && t.total_supply + amount > cap->Some_0 {
            r == Err::<(), ContractError>(ContractError::InsufficientFunds) && post == pre
        } else if br + amount > u128::MAX {
            r == Err::<(), ContractError>(ContractError::ArithmeticOverflow) && post == pre
        } else {
            &&& r == Ok::<(), ContractError>(())
            &&& post == LedgerView {
                token: Some(TokenInfo { total_supply: (t.total_supply + amount) as u128, ..t }),
                balances: pre.balances.insert(recipient, (br + amount) as u128),
                balance_sum: pre.balance_sum + amount,
                ..pre
            }
        }
    }
}

/// The outcome of a burn: it lowers the recorded supply and debits no
/// account.
pub open spec fn burn_spec(
    pre: LedgerView,
    post: LedgerView,
    caller: Seq<char>,
    amount: u128,
    r: Result<(), ContractError>,
) -> bool {
    if !is_minter(pre.token, caller) {
        r == Err::<(), ContractError>(ContractError::Unauthorized) && post == pre
    } else {
        let t = pre.token->Some_0;
        if t.total_supply < amount {
            r == Err::<(), ContractError>(ContractError::InsufficientFunds) && post == pre
        } else {
            &&& r == Ok::<(), ContractError>(())
            &&& post == LedgerView {
                token: Some(TokenInfo { total_supply: (t.total_supply - amount) as u128, ..t }),
                ..pre
            }
        }
    }
}

/// The allowance record that an approval writes.
pub open spec fn approved(amount: u128) -> Allowance {
    Allowance { allowance: amount, expires: Expiration::Never }
}

/// The outcome of an approval.
pub open spec fn approve_spec(
    pre: LedgerView,
    post: LedgerView,
    owner: Seq<char>,
    spender: Seq<char>,
    amount: u128,
    r: Result<(), ContractError>,
) -> bool {
    if balance_in(pre.balances, owner) < amount {
        r == Err::<(), ContractError>(ContractError::InsufficientFunds) && post == pre
    } else {
        &&& r == Ok::<(), ContractError>(())
        &&& post == LedgerView {
            allowances: pre.allowances.insert((owner, spender), approved(amount)),
            ..pre
        }
    }
}

/// The outcome of a delegated transfer by `caller` out of `owner`'s balance.
/// A successful one removes the whole allowance, whatever it spent.
pub open spec fn transfer_from_spec(
    pre: LedgerView,
    post: LedgerView,
    caller: Seq<char>,
    owner: Seq<char>,
    recipient: Seq<char>,
    amount: u128,
    block: BlockInfo,
    r: Result<(), ContractError>,
) -> bool {
    let key = (owner, caller);
    if !pre.allowances.contains_key(key) {
        r == Err::<(), ContractError>(ContractError::Unauthorized) && post == pre
    } else if pre.allowances[key].allowance < amount {
        r == Err::<(), ContractError>(ContractError::InsufficientAllowance) && post == pre
    } else if pre.allowances[key].expires.spec_is_expired(block) {
        r == Err::<(), ContractError>(ContractError::AllowanceExpired) && post == pre
    } else {
        match transfer_error(pre.balances, owner, recipient, amount) {
            Some(e) => r == Err::<(), ContractError>(e) && post == pre,
            None => r == Ok::<(), ContractError>(()) && post == LedgerView {
                balances: moved(pre.balances, owner, recipient, amount),
                allowances: pre.allowances.remove(key),
                ..pre
            },
        }
    }
}

/// Moves `amount` from `sender` to `recipient`, or fails with no effect.
pub fn execute_transfer(ledger: &mut Ledger, sender: &String, recipient: &String, amount: u128) -> (r:
    Result<(), ContractError>)
    requires
        old(ledger).wf(),
    ensures
        final(ledger).wf(),
        transfer_spec(old(ledger)@, final(ledger)@, sender@, recipient@, amount, r),
{
    let bs = ledger.balance_of(sender);
    if bs < amount {
        return Err(ContractError::InsufficientFunds);
    }
    if *sender == *recipient {
        assert(moved(ledger@.balances, sender@, recipient@, amount) == ledger@.balances);
        return Ok(());
    }
    let br = ledger.balance_of(recipient);
    match br.checked_add(amount) {
        None => Err(ContractError::ArithmeticOverflow),
        Some(nr) => {
            ledger.set_balance(sender, bs - amount);
            ledger.set_balance(recipient, nr);
            Ok(())
        },
    }
}

/// Mints `amount` to `recipient`; only the minter may, and within the cap.
pub fn execute_mint(ledger: &mut Ledger, caller: &String, recipient: &String, amount: u128) -> (r:
    Result<(), ContractError>)
    requires
        old(ledger).wf(),
    ensures
        final(ledger).wf(),
        mint_spec(old(ledger)@, final(ledger)@, caller@, recipient@, amount, r),
{
    let (supply, cap) = match ledger.token_info() {
        None => {
            return Err(ContractError::Unauthorized);
        },
        Some(t) => match &t.mint {
            None => {
                return Err(ContractError::Unauthorized);
            },
            Some(m) => {
                if m.minter != *caller {
                    return Err(ContractError::Unauthorized);
                }
                (t.total_supply, m.cap)
            },
        },
    };
    let new_supply = match supply.checked_add(amount) {
        None => {
            return Err(ContractError::ArithmeticOverflow);
        },
        Some(s) => s,
    };
    if let Some(c) = cap {
        if new_supply > c {
            return Err(ContractError::InsufficientFunds);
        }
    }
    let br = ledger.balance_of(recipient);
    let nr = match br.checked_add(amount) {
        None => {
            return Err(ContractError::ArithmeticOverflow);
        },
        Some(b) => b,
    };
    ledger.set_balance(recipient, nr);
    ledger.set_total_supply(new_supply);
    Ok(())
}

/// Lowers the total supply by `amount`; only the minter may.
pub fn execute_burn(ledger: &mut Ledger, caller: &String, amount: u128) -> (r: Result<
    (),
    ContractError,
>)
    requires
        old(ledger).wf(),
    ensures
        final(ledger).wf(),
        burn_spec(old(ledger)@, final(ledger)@, caller@, amount, r),
{
    let supply = match ledger.token_info() {
        None => {
            return Err(ContractError::Unauthorized);
        },
        Some(t) => match &t.mint {
            None => {
                return Err(ContractError::Unauthorized);
            },
            Some(m) => {
                if m.minter != *caller {
                    return Err(ContractError::Unauthorized);
                }
                t.total_supply
            },
        },
    };
    if supply < amount {
        return Err(ContractError::InsufficientFunds);
    }
    ledger.set_total_supply(supply - amount);
    Ok(())
}

/// Lets `spender` move up to `amount` of `owner`'s balance, replacing any
/// earlier allowance of the pair; the owner's balance must cover it now.
pub fn execute_approve(ledger: &mut Ledger, owner: &String, spender: &String, amount: u128) -> (r:
    Result<(), ContractError>)
    requires
        old(ledger).wf(),
    ensures
        final(ledger).wf(),
        approve_spec(old(ledger)@, final(ledger)@, owner@, spender@, amount, r),
{
    let bo = ledger.balance_of(owner);
    if bo < amount {
        return Err(ContractError::InsufficientFunds);
    }
    ledger.set_allowance(owner, spender, Allowance { allowance: amount, expires: Expiration::Never });
    Ok(())
}

/// Spends `caller`'s allowance from `owner`: moves `amount` to `recipient`
/// and removes the allowance.
pub fn execute_transfer_from(
    ledger: &mut Ledger,
    caller: &String,
    owner: &String,
    recipient: &String,
    amount: u128,
    block: BlockInfo,
) -> (r: Result<(), ContractError>)
    requires
        old(ledger).wf(),
    ensures
        final(ledger).wf(),
        transfer_from_spec(
            old(ledger)@,
            final(ledger)@,
            caller@,
            owner@,
            recipient@,
            amount,
            block,
            r,
        ),
{
    let a = match ledger.allowance_of(owner, caller) {
        None => {
            return Err(ContractError::Unauthorized);
        },
        Some(a) => a,
    };
    if a.allowance < amount {
        return Err(ContractError::InsufficientAllowance);
    }
    if a.expires.is_expired(block) {
        return Err(ContractError::AllowanceExpired);
    }
    let r = execute_transfer(ledger, owner, recipient, amount);
    if r.is_ok() {
        ledger.remove_allowance(owner, caller);
    }
    r
}

/// The result of an operation with its action tag dropped.
pub open spec fn outcome(r: Result<Action, ContractError>) -> Result<(), ContractError> {
    match r {
        Ok(_) => Ok(()),
        Err(e) => Err(e),
    }
}

/// The action tag of a state-changing request.
pub open spec fn action_of(msg: ExecuteMsg) -> Action {
    match msg {
        ExecuteMsg::Transfer { .. } => Action::Transfer,
        ExecuteMsg::Mint { .. } => Action::Mint,
        ExecuteMsg::Burn { .. } => Action::Burn,
        ExecuteMsg::Approve { .. } => Action::Approve,
        ExecuteMsg::TransferFrom { .. } => Action::TransferFrom,
    }
}

/// The outcome of a state-changing request made by `caller`.
pub open spec fn execute_spec(
    pre: LedgerView,
    post: LedgerView,
    caller: Seq<char>,
    block: BlockInfo,
    msg: ExecuteMsg,
    r: Result<(), ContractError>,
) -> bool {
    match msg {
        ExecuteMsg::Transfer { recipient, amount } => transfer_spec(
            pre,
            post,
            caller,
            recipient@,
            amount,
            r,
        ),
        ExecuteMsg::Mint { recipient, amount } => mint_spec(pre, post, caller, recipient@, amount, r),
        ExecuteMsg::Burn { amount } => burn_spec(pre, post, caller, amount, r),
        ExecuteMsg::Approve { spender, amount } => approve_spec(
            pre,
            post,
            caller,
            spender@,
            amount,
            r,
        ),
        ExecuteMsg::TransferFrom { owner, recipient, amount } => transfer_from_spec(
            pre,
            post,
            caller,
            owner@,
            recipient@,
            amount,
            block,
            r,
        ),
    }
}

/// Writes the metadata record and credits the whole initial supply to the
/// caller.
pub fn instantiate(ledger: &mut Ledger, caller: &String, msg: InstantiateMsg) -> (r: Result<
    Action,
    ContractError,
>)
    requires
        old(ledger).wf(),
    ensures
        final(ledger).wf(),
        instantiate_spec(old(ledger)@, final(ledger)@, *caller, msg, outcome(r)),
        r is Ok ==> r == Ok::<Action, ContractError>(Action::Instantiate),
{
    if let Err(e) = msg.validate() {
        return Err(e);
    }
    let ghost m = msg;
    let mint = match &msg.mint {
        Some(d) => Some(MinterData { minter: caller.clone(), cap: d.cap }),
        None => None,
    };
    let supply = msg.total_supply;
    let t = TokenInfo {
        name: msg.name,
        symbol: msg.symbol,
        decimals: msg.decimals,
        total_supply: supply,
        mint,
    };
    assert(t == initial_token(m, *caller));
    ledger.set_token_info(t);
    ledger.set_balance(caller, supply);
    Ok(Action::Instantiate)
}

/// Carries out one state-changing request made by `caller` at `block`.
pub fn execute(ledger: &mut Ledger, caller: &String, block: BlockInfo, msg: ExecuteMsg) -> (r:
    Result<Action, ContractError>)
    requires
        old(ledger).wf(),
    ensures
        final(ledger).wf(),
        execute_spec(old(ledger)@, final(ledger)@, caller@, block, msg, outcome(r)),
        r is Ok ==> r == Ok::<Action, ContractError>(action_of(msg)),
{
    let (res, action) = match &msg {
        ExecuteMsg::Transfer { recipient, amount } => (
            execute_transfer(ledger, caller, recipient, *amount),
            Action::Transfer,
        ),
        ExecuteMsg::Mint { recipient, amount } => (
            execute_mint(ledger, caller, recipient, *amount),
            Action::Mint,
        ),
        ExecuteMsg::Burn { amount } => (execute_burn(ledger, caller, *amount), Action::Burn),
        ExecuteMsg::Approve { spender, amount } => (
            execute_approve(ledger, caller, spender, *amount),
            Action::Approve,
        ),
        ExecuteMsg::TransferFrom { owner, recipient, amount } => (
            execute_transfer_from(ledger, caller, owner, recipient, *amount, block),
            Action::TransferFrom,
        ),
    };
    match res {
        Ok(()) => Ok(action),
        Err(e) => Err(e),
    }
}

/// The mint authority as reported by a query.
pub open spec fn minter_response(t: TokenInfo) -> Option<MinterResponse> {
    match t.mint {
        Some(m) => Some(MinterResponse { minter: m.minter, cap: m.cap }),
        None => None,
    }
}

/// An allowance as reported by a query.
pub open spec fn allowance_response(a: Allowance) -> AllowanceResponse {
    AllowanceResponse { allowance: a.allowance, expires: a.expires }
}

/// `v` is the page of `owner`'s allowances after `start`, of at most `n`
/// entries, ascending by spender, each with its record.
pub open spec fn owner_listing(
    m: Map<(Seq<char>, Seq<char>), Allowance>,
    owner: Seq<char>,
    start: Option<Seq<char>>,
    n: nat,
    v: Seq<AllowanceInfo>,
) -> bool {
    &&& is_page(spenders_in(m, owner), start, n, v.map_values(|x: AllowanceInfo| x.spender@))
    &&& forall|i: int|
        0 <= i < v.len() ==> m.contains_key((owner, (#[trigger] v[i]).spender@)) && m[(
            owner,
            v[i].spender@,
        )] == (Allowance {
            allowance: v[i].allowance,
            expires: v[i].expires,
        })
}

/// `v` is the page of the allowances granted to `spender` after `start`, of
/// at most `n` entries, ascending by owner, each with its record.
pub open spec fn spender_listing(
    m: Map<(Seq<char>, Seq<char>), Allowance>,
    spender: Seq<char>,
    start: Option<Seq<char>>,
    n: nat,
    v: Seq<SpenderAllowanceInfo>,
) -> bool {
    &&& is_page(owners_in(m, spender), start, n, v.map_values(|x: SpenderAllowanceInfo| x.owner@))
    &&& forall|i: int|
        0 <= i < v.len() ==> m.contains_key(((#[trigger] v[i]).owner@, spender)) && m[(
            v[i].owner@,
            spender,
        )] == (Allowance {
            allowance: v[i].allowance,
            expires: v[i].expires,
        })
}

/// The balance of an account; zero when it has none.
pub fn query_balance(ledger: &Ledger, address: &String) -> (r: u128)
    requires
        ledger.wf(),
    ensures
        r == balance_in(ledger@.balances, address@),
{
    ledger.balance_of(address)
}

/// The metadata record.
pub fn query_token_info(ledger: &Ledger) -> (r: Result<TokenInfo, ContractError>)
    ensures
        match ledger@.token {
            None => r == Err::<TokenInfo, ContractError>(ContractError::NotInitialized),
            Some(t) => r == Ok::<TokenInfo, ContractError>(t),
        },
{
    match ledger.token_info() {
        None => Err(ContractError::NotInitialized),
        Some(t) => Ok(t.duplicate()),
    }
}

/// The mint authority, if one is configured.
pub fn query_minter(ledger: &Ledger) -> (r: Result<Option<MinterResponse>, ContractError>)
    ensures
        match ledger@.token {
            None => r == Err::<Option<MinterResponse>, ContractError>(
                ContractError::NotInitialized,
            ),
            Some(t) => r == Ok::<Option<MinterResponse>, ContractError>(minter_response(t)),
        },
{
    match ledger.token_info() {
        None => Err(ContractError::NotInitialized),
        Some(t) => match &t.mint {
            Some(m) => Ok(Some(MinterResponse { minter: m.minter.clone(), cap: m.cap })),
            None => Ok(None),
        },
    }
}

/// The allowance that `owner` granted `spender`; nothing, never expiring,
/// when there is none.
pub fn query_allowance(ledger: &Ledger, owner: &String, spender: &String) -> (r: AllowanceResponse)
    requires
        ledger.wf(),
    ensures
        r == allowance_response(allowance_in(ledger@.allowances, owner@, spender@)),
{
    let a = match ledger.allowance_of(owner, spender) {
        Some(a) => a,
        None => Allowance { allowance: 0, expires: Expiration::Never },
    };
    AllowanceResponse { allowance: a.allowance, expires: a.expires }
}

/// One page of `owner`'s allowances, ascending by spender.
pub fn query_owner_allowances(
    ledger: &Ledger,
    owner: &String,
    start_after: Option<String>,
    limit: Option<u32>,
) -> (r: Vec<AllowanceInfo>)
    requires
        ledger.wf(),
    ensures
        owner_listing(ledger@.allowances, owner@, opt_view(start_after), limit_of(limit), r@),
{
    let cands = ledger.spenders_of(owner);
    let n = effective_limit(limit);
    let keys = page_keys(&cands, &start_after, n);
    let ghost kv = views(keys@);
    let mut out: Vec<AllowanceInfo> = Vec::new();
    let mut i: usize = 0;
    while i < keys.len()
        invariant
            ledger.wf(),
            kv == views(keys@),
            is_page(spenders_in(ledger@.allowances, owner@), opt_view(start_after), n as nat, kv),
            i <= keys@.len(),
            out@.len() == i,
            forall|j: int| 0 <= j < i ==> (#[trigger] out@[j]).spender@ == keys@[j]@,
            forall|j: int|
                0 <= j < i ==> ledger@.allowances.contains_key((owner@, (#[trigger] out@[j]).spender@))
                    && ledger@.allowances[(owner@, out@[j].spender@)] == (
                Allowance { allowance: out@[j].allowance, expires: out@[j].expires }),
        decreases keys@.len() - i,
    {
        assert(kv[i as int] == keys@[i as int]@);
        match ledger.allowance_of(owner, &keys[i]) {
            Some(a) => {
                out.push(
                    AllowanceInfo {
                        spender: keys[i].clone(),
                        allowance: a.allowance,
                        expires: a.expires,
                    },
                );
            },
            None => {
                assert(spenders_in(ledger@.allowances, owner@).contains(kv[i as int]));
                assert(false);
            },
        }
        i = i + 1;
    }
    assert(out@.map_values(|x: AllowanceInfo| x.spender@) =~= kv);
    out
}

/// One page of the allowances granted to `spender`, ascending by owner.
pub fn query_spender_allowances(
    ledger: &Ledger,
    spender: &String,
    start_after: Option<String>,
    limit: Option<u32>,
) -> (r: Vec<SpenderAllowanceInfo>)
    requires
        ledger.wf(),
    ensures
        spender_listing(ledger@.allowances, spender@, opt_view(start_after), limit_of(limit), r@),
{
    let cands = ledger.owners_of(spender);
    let n = effective_limit(limit);
    let keys = page_keys(&cands, &start_after, n);
    let ghost kv = views(keys@);
    let mut out: Vec<SpenderAllowanceInfo> = Vec::new();
    let mut i: usize = 0;
    while i < keys.len()
        invariant
            ledger.wf(),
            kv == views(keys@),
            is_page(owners_in(ledger@.allowances, spender@), opt_view(start_after), n as nat, kv),
            i <= keys@.len(),
            out@.len() == i,
            forall|j: int| 0 <= j < i ==> (#[trigger] out@[j]).owner@ == keys@[j]@,
            forall|j: int|
                0 <= j < i ==> ledger@.allowances.contains_key(((#[trigger] out@[j]).owner@, spender@))
                    && ledger@.allowances[(out@[j].owner@, spender@)] == (
                Allowance { allowance: out@[j].allowance, expires: out@[j].expires }),
        decreases keys@.len() - i,
    {
        assert(kv[i as int] == keys@[i as int]@);
        match ledger.allowance_of(&keys[i], spender) {
            Some(a) => {
                out.push(
                    SpenderAllowanceInfo {
                        owner: keys[i].clone(),
                        allowance: a.allowance,
                        expires: a.expires,
                    },
                );
            },
            None => {
                assert(owners_in(ledger@.allowances, spender@).contains(kv[i as int]));
                assert(false);
            },
        }
        i = i + 1;
    }
    assert(out@.map_values(|x: SpenderAllowanceInfo| x.owner@) =~= kv);
    out
}

/// One page of the accounts that hold a balance record, ascending.
pub fn query_all_accounts(ledger: &Ledger, start_after: Option<String>, limit: Option<u32>) -> (r:
    Vec<String>)
    requires
        ledger.wf(),
    ensures
        is_page(ledger@.balances.dom(), opt_view(start_after), limit_of(limit), views(r@)),
{
    let cands = ledger.accounts();
    let n = effective_limit(limit);
    page_keys(&cands, &start_after, n)
}

/// The answer to a read-only request.
pub open spec fn query_spec(v: LedgerView, msg: QueryMsg, r: Result<QueryResponse, ContractError>) -> bool {
    match msg {
        QueryMsg::Balance { address } => r == Ok::<QueryResponse, ContractError>(
            QueryResponse::Balance(balance_in(v.balances, address@)),
        ),
        QueryMsg::TokenInfo {  } => match v.token {
            None => r == Err::<QueryResponse, ContractError>(ContractError::NotInitialized),
            Some(t) => r == Ok::<QueryResponse, ContractError>(QueryResponse::TokenInfo(t)),
        },
        QueryMsg::Minter {  } => match v.token {
            None => r == Err::<QueryResponse, ContractError>(ContractError::NotInitialized),
            Some(t) => r == Ok::<QueryResponse, ContractError>(
                QueryResponse::Minter(minter_response(t)),
            ),
        },
        QueryMsg::Allowance { owner, spender } => r == Ok::<QueryResponse, ContractError>(
            QueryResponse::Allowance(
                allowance_response(allowance_in(v.allowances, owner@, spender@)),
            ),
        ),
        QueryMsg::AllAllowances { owner, start_after, limit } => match r {
            Ok(QueryResponse::AllAllowances(l)) => owner_listing(
                v.allowances,
                owner@,
                opt_view(start_after),
                limit_of(limit),
                l@,
            ),
            _ => false,
        },
        QueryMsg::AllSpenderAllowances { spender, start_after, limit } => match r {
            Ok(QueryResponse::AllSpenderAllowances(l)) => spender_listing(
                v.allowances,
                spender@,
                opt_view(start_after),
                limit_of(limit),
                l@,
            ),
            _ => false,
        },
        QueryMsg::AllAccounts { start_after, limit } => match r {
            Ok(QueryResponse::AllAccounts(l)) => is_page(
                v.balances.dom(),
                opt_view(start_after),
                limit_of(limit),
                views(l@),
            ),
            _ => false,
        },
    }
}

/// Answers one read-only request.
pub fn query(ledger: &Ledger, msg: QueryMsg) -> (r: Result<QueryResponse, ContractError>)
    requires
        ledger.wf(),
    ensures
        query_spec(ledger@, msg, r),
{
    match msg {
        QueryMsg::Balance { address } => Ok(QueryResponse::Balance(query_balance(ledger, &address))),
        QueryMsg::TokenInfo {  } => match query_token_info(ledger) {
            Ok(t) => Ok(QueryResponse::TokenInfo(t)),
            Err(e) => Err(e),
        },
        QueryMsg::Minter {  } => match query_minter(ledger) {
            Ok(m) => Ok(QueryResponse::Minter(m)),
            Err(e) => Err(e),
        },
        QueryMsg::Allowance { owner, spender } => Ok(
            QueryResponse::Allowance(query_allowance(ledger, &owner, &spender)),
        ),
        QueryMsg::AllAllowances { owner, start_after, limit } => Ok(
            QueryResponse::AllAllowances(
                query_owner_allowances(ledger, &owner, start_after, limit),
            ),
        ),
        QueryMsg::AllSpenderAllowances { spender, start_after, limit } => Ok(
            QueryResponse::AllSpenderAllowances(
                query_spender_allowances(ledger, &spender, start_after, limit),
            ),
        ),
        QueryMsg::AllAccounts { start_after, limit } => Ok(
            QueryResponse::AllAccounts(query_all_accounts(ledger, start_after, limit)),
        ),
    }
}

/// The recorded total supply; zero before initialization.
pub open spec fn supply_of(v: LedgerView) -> int {
    match v.token {
        Some(t) => t.total_supply as int,
        None => 0,
    }
}

/// Initializing a ledger that holds no balances leaves the recorded supply
/// equal to the sum of all balances.
pub proof fn lemma_instantiate_balances_supply(
    pre: LedgerView,
    post: LedgerView,
    caller: String,
    msg: InstantiateMsg,
    r: Result<(), ContractError>,
)
    requires
        instantiate_spec(pre, post, caller, msg, r),
        pre.balances == Map::<Seq<char>, u128>::empty(),
        pre.balance_sum == 0,
        pre.token is None,
    ensures
        supply_of(post) == post.balance_sum,
{
}

/// Supply accounting: every state change keeps the difference between the
/// recorded supply and the sum of all balances, except a successful burn,
/// which lowers the supply by the amount burned and debits no account. So
/// where no burn has happened the supply equals the sum of all balances.
pub proof fn lemma_execute_supply_accounting(
    pre: LedgerView,
    post: LedgerView,
    caller: Seq<char>,
    block: BlockInfo,
    msg: ExecuteMsg,
    r: Result<(), ContractError>,
)
    requires
        execute_spec(pre, post, caller, block, msg, r),
    ensures
        match msg {
            ExecuteMsg::Burn { amount } => if r is Ok {
                supply_of(post) - post.balance_sum == supply_of(pre) - pre.balance_sum - amount
            } else {
                supply_of(post) - post.balance_sum == supply_of(pre) - pre.balance_sum
            },
            _ => supply_of(post) - post.balance_sum == supply_of(pre) - pre.balance_sum,
        },
{
}

/// Approving the same pair for the same amount twice leaves the ledger as
/// the first approval left it, with the same result.
pub proof fn lemma_approve_idempotent(
    s0: LedgerView,
    s1: LedgerView,
    s2: LedgerView,
    owner: Seq<char>,
    spender: Seq<char>,
    amount: u128,
    r1: Result<(), ContractError>,
    r2: Result<(), ContractError>,
)
    requires
        approve_spec(s0, s1, owner, spender, amount, r1),
        approve_spec(s1, s2, owner, spender, amount, r2),
    ensures
        s2 == s1,
        r2 == r1,
{
    if r1 is Ok {
        assert(s1.allowances.insert((owner, spender), approved(amount)) =~= s1.allowances);
    }
}

/// After a successful approval the pair's allowance reads back as exactly
/// the approved amount, never expiring.
pub proof fn lemma_approve_then_read(
    pre: LedgerView,
    post: LedgerView,
    owner: Seq<char>,
    spender: Seq<char>,
    amount: u128,
    r: Result<(), ContractError>,
)
    requires
        approve_spec(pre, post, owner, spender, amount, r),
        r is Ok,
    ensures
        allowance_in(post.allowances, owner, spender) == (Allowance {
            allowance: amount,
            expires: Expiration::Never,
        }),
{
}

/// Transferring a sender's whole balance to another account succeeds and
/// leaves the sender at zero (where the recipient's balance can take it).
pub proof fn lemma_transfer_whole_balance(
    pre: LedgerView,
    post: LedgerView,
    sender: Seq<char>,
    recipient: Seq<char>,
    r: Result<(), ContractError>,
)
    requires
        sender != recipient,
        balance_in(pre.balances, sender) + balance_in(pre.balances, recipient) <= u128::MAX,
        transfer_spec(pre, post, sender, recipient, balance_in(pre.balances, sender), r),
    ensures
        r is Ok,
        balance_in(post.balances, sender) == 0,
{
}

/// Transferring one more than the sender's balance fails with
/// `InsufficientFunds` and changes nothing.
pub proof fn lemma_transfer_over_balance(
    pre: LedgerView,
    post: LedgerView,
    sender: Seq<char>,
    recipient: Seq<char>,
    r: Result<(), ContractError>,
)
    requires
        balance_in(pre.balances, sender) < u128::MAX,
        transfer_spec(
            pre,
            post,
            sender,
            recipient,
            (balance_in(pre.balances, sender) + 1) as u128,
            r,
        ),
    ensures
        r == Err::<(), ContractError>(ContractError::InsufficientFunds),
        post == pre,
{
}

} // verus!

use cw20_ledger::contract::{
    execute, execute_approve, execute_burn, execute_mint, execute_transfer, execute_transfer_from,
    instantiate, query, query_all_accounts, query_allowance, query_balance, query_minter,
    query_owner_allowances, query_spender_allowances, query_token_info,
};
use cw20_ledger::error::ContractError;
use cw20_ledger::msg::{Action, ExecuteMsg, InstantiateMsg, QueryMsg, QueryResponse};
use cw20_ledger::state::{Allowance, BlockInfo, Expiration, Ledger, MinterData};

fn s(x: &str) -> String {
    x.to_string()
}

fn block() -> BlockInfo {
    BlockInfo { height: 100, time: 1_000 }
}

fn init_msg(total: u128, mint: Option<MinterData>) -> InstantiateMsg {
    InstantiateMsg {
        total_supply: total,
        name: s("Test Token"),
        symbol: s("TEST"),
        decimals: 6,
        mint,
    }
}

fn minter_any(cap: Option<u128>) -> Option<MinterData> {
    Some(MinterData { minter: s("ignored"), cap })
}

/// A ledger initialized by `A` with the given supply and mint authority.
fn ledger_with(total: u128, mint: Option<MinterData>) -> Ledger {
    let mut l = Ledger::new();
    assert_eq!(instantiate(&mut l, &s("A"), init_msg(total, mint)), Ok(Action::Instantiate));
    l
}

fn supply(l: &Ledger) -> u128 {
    query_token_info(l).unwrap().total_supply
}

fn sum_of_balances(l: &Ledger) -> u128 {
    let mut total = 0u128;
    let mut start: Option<String> = None;
    loop {
        let page = query_all_accounts(l, start.clone(), Some(30));
        for a in &page {
            total += query_balance(l, a);
        }
        if page.len() < 30 {
            return total;
        }
        start = page.last().cloned();
    }
}

#[test]
fn scenario_a_instantiate_credits_caller() {
    let l = ledger_with(1000, None);
    assert_eq!(query_balance(&l, &s("A")), 1000);
    assert_eq!(supply(&l), 1000);
}

#[test]
fn scenario_b_transfer_moves_balance() {
    let mut l = ledger_with(1000, None);
    assert_eq!(execute_transfer(&mut l, &s("A"), &s("B"), 400), Ok(()));
    assert_eq!(query_balance(&l, &s("A")), 600);
    assert_eq!(query_balance(&l, &s("B")), 400);
}

#[test]
fn scenario_c_minter_mints() {
    let mut l = ledger_with(1000, minter_any(None));
    assert_eq!(execute_mint(&mut l, &s("A"), &s("C"), 50), Ok(()));
    assert_eq!(supply(&l), 1050);
    assert_eq!(query_balance(&l, &s("C")), 50);
}

#[test]
fn scenario_d_transfer_from_revokes_whole_allowance() {
    let mut l = ledger_with(1000, None);
    assert_eq!(execute_approve(&mut l, &s("A"), &s("B"), 300), Ok(()));
    assert_eq!(
        execute_transfer_from(&mut l, &s("B"), &s("A"), &s("B"), 100, block()),
        Ok(())
    );
    assert_eq!(query_balance(&l, &s("A")), 900);
    assert_eq!(query_balance(&l, &s("B")), 100);
    let a = query_allowance(&l, &s("A"), &s("B"));
    assert_eq!(a.allowance, 0);
    assert_eq!(a.expires, Expiration::Never);
}

#[test]
fn scenario_e_transfer_from_without_approval_is_unauthorized() {
    let mut l = ledger_with(1000, None);
    assert_eq!(
        execute_transfer_from(&mut l, &s("B"), &s("A"), &s("B"), 1, block()),
        Err(ContractError::Unauthorized)
    );
    assert_eq!(query_balance(&l, &s("A")), 1000);
}

#[test]
fn transfer_of_whole_balance_leaves_zero() {
    let mut l = ledger_with(1000, None);
    assert_eq!(execute_transfer(&mut l, &s("A"), &s("B"), 1000), Ok(()));
    assert_eq!(query_balance(&l, &s("A")), 0);
    assert_eq!(query_balance(&l, &s("B")), 1000);
}

#[test]
fn transfer_of_balance_plus_one_fails() {
    let mut l = ledger_with(1000, None);
    assert_eq!(
        execute_transfer(&mut l, &s("A"), &s("B"), 1001),
        Err(ContractError::InsufficientFunds)
    );
    assert_eq!(query_balance(&l, &s("A")), 1000);
    assert_eq!(query_balance(&l, &s("B")), 0);
}

#[test]
fn transfer_to_self_keeps_balance() {
    let mut l = ledger_with(1000, None);
    assert_eq!(execute_transfer(&mut l, &s("A"), &s("A"), 700), Ok(()));
    assert_eq!(query_balance(&l, &s("A")), 1000);
}

#[test]
fn transfer_overflow_on_recipient_changes_nothing() {
    let mut l = ledger_with(u128::MAX, minter_any(None));
    assert_eq!(execute_burn(&mut l, &s("A"), 10), Ok(()));
    assert_eq!(execute_mint(&mut l, &s("A"), &s("B"), 5), Ok(()));
    assert_eq!(
        execute_transfer(&mut l, &s("B"), &s("A"), 5),
        Err(ContractError::ArithmeticOverflow)
    );
    assert_eq!(query_balance(&l, &s("A")), u128::MAX);
    assert_eq!(query_balance(&l, &s("B")), 5);
}

#[test]
fn supply_equals_sum_of_balances_without_burns() {
    let mut l = ledger_with(1000, minter_any(None));
    assert_eq!(execute_transfer(&mut l, &s("A"), &s("B"), 250), Ok(()));
    assert_eq!(execute_mint(&mut l, &s("A"), &s("C"), 75), Ok(()));
    assert_eq!(execute_approve(&mut l, &s("B"), &s("D"), 100), Ok(()));
    assert_eq!(
        execute_transfer_from(&mut l, &s("D"), &s("B"), &s("E"), 60, block()),
        Ok(())
    );
    assert_eq!(supply(&l), 1075);
    assert_eq!(sum_of_balances(&l), 1075);
}

#[test]
fn burn_lowers_supply_only() {
    let mut l = ledger_with(1000, minter_any(None));
    assert_eq!(execute_burn(&mut l, &s("A"), 300), Ok(()));
    assert_eq!(supply(&l), 700);
    assert_eq!(query_balance(&l, &s("A")), 1000);
    assert_eq!(sum_of_balances(&l), 1000);
}

#[test]
fn burn_errors() {
    let mut l = ledger_with(1000, minter_any(None));
    assert_eq!(execute_burn(&mut l, &s("B"), 1), Err(ContractError::Unauthorized));
    assert_eq!(execute_burn(&mut l, &s("A"), 1001), Err(ContractError::InsufficientFunds));
    assert_eq!(supply(&l), 1000);
    let mut no_minter = ledger_with(1000, None);
    assert_eq!(execute_burn(&mut no_minter, &s("A"), 1), Err(ContractError::Unauthorized));
    let mut empty = Ledger::new();
    assert_eq!(execute_burn(&mut empty, &s("A"), 1), Err(ContractError::Unauthorized));
}

#[test]
fn mint_errors() {
    let mut l = ledger_with(1000, minter_any(Some(1100)));
    assert_eq!(execute_mint(&mut l, &s("B"), &s("B"), 1), Err(ContractError::Unauthorized));
    assert_eq!(
        execute_mint(&mut l, &s("A"), &s("B"), 101),
        Err(ContractError::InsufficientFunds)
    );
    assert_eq!(execute_mint(&mut l, &s("A"), &s("B"), 100), Ok(()));
    assert_eq!(supply(&l), 1100);
    assert_eq!(
        execute_mint(&mut l, &s("A"), &s("B"), u128::MAX),
        Err(ContractError::ArithmeticOverflow)
    );
    let mut no_minter = ledger_with(1000, None);
    assert_eq!(
        execute_mint(&mut no_minter, &s("A"), &s("B"), 1),
        Err(ContractError::Unauthorized)
    );
    let mut empty = Ledger::new();
    assert_eq!(execute_mint(&mut empty, &s("A"), &s("B"), 1), Err(ContractError::Unauthorized));
}

#[test]
fn approve_twice_is_idempotent() {
    let mut l = ledger_with(1000, None);
    assert_eq!(execute_approve(&mut l, &s("A"), &s("B"), 300), Ok(()));
    let first = query_allowance(&l, &s("A"), &s("B"));
    assert_eq!(execute_approve(&mut l, &s("A"), &s("B"), 300), Ok(()));
    assert_eq!(query_allowance(&l, &s("A"), &s("B")), first);
    assert_eq!(query_owner_allowances(&l, &s("A"), None, None).len(), 1);
}

#[test]
fn approve_then_read_back() {
    let mut l = ledger_with(1000, None);
    assert_eq!(execute_approve(&mut l, &s("A"), &s("B"), 250), Ok(()));
    let a = query_allowance(&l, &s("A"), &s("B"));
    assert_eq!(a.allowance, 250);
    assert_eq!(a.expires, Expiration::Never);
}

#[test]
fn approve_over_balance_fails() {
    let mut l = ledger_with(1000, None);
    assert_eq!(
        execute_approve(&mut l, &s("A"), &s("B"), 1001),
        Err(ContractError::InsufficientFunds)
    );
    assert_eq!(query_allowance(&l, &s("A"), &s("B")).allowance, 0);
}

#[test]
fn transfer_from_errors() {
    let mut l = ledger_with(1000, None);
    assert_eq!(execute_approve(&mut l, &s("A"), &s("B"), 300), Ok(()));
    assert_eq!(
        execute_transfer_from(&mut l, &s("B"), &s("A"), &s("C"), 301, block()),
        Err(ContractError::InsufficientAllowance)
    );
    assert_eq!(execute_transfer(&mut l, &s("A"), &s("Z"), 950), Ok(()));
    assert_eq!(
        execute_transfer_from(&mut l, &s("B"), &s("A"), &s("C"), 100, block()),
        Err(ContractError::InsufficientFunds)
    );
    assert_eq!(query_allowance(&l, &s("A"), &s("B")).allowance, 300);
}

#[test]
fn expired_allowance_is_refused() {
    assert!(Expiration::AtHeight(100).is_expired(block()));
    assert!(!Expiration::AtHeight(101).is_expired(block()));
    assert!(Expiration::AtTime(1_000).is_expired(block()));
    assert!(!Expiration::AtTime(1_001).is_expired(block()));
    assert!(!Expiration::Never.is_expired(block()));
    assert_eq!(Expiration::default(), Expiration::Never);
    assert_eq!(Allowance::default(), Allowance { allowance: 0, expires: Expiration::Never });
}

#[test]
fn metadata_validation() {
    assert_eq!(init_msg(1, None).validate(), Ok(()));
    let mut m = init_msg(1, None);
    m.name = s("ab");
    assert_eq!(m.validate(), Err(ContractError::InvalidMetadata));
    assert!(!m.has_valid_name());
    m.name = "x".repeat(51);
    assert!(!m.has_valid_name());
    m.name = "x".repeat(50);
    assert!(m.has_valid_name());
    let mut m = init_msg(1, None);
    m.symbol = s("AB1");
    assert!(!m.has_valid_symbol());
    m.symbol = s("A-b");
    assert!(m.has_valid_symbol());
    m.symbol = s("ABCDEFGHIJKLM");
    assert!(!m.has_valid_symbol());
    m.symbol = s("ABé");
    assert!(!m.has_valid_symbol());
    let mut m = init_msg(1, None);
    m.decimals = 19;
    assert_eq!(m.validate(), Err(ContractError::InvalidMetadata));
    m.decimals = 18;
    assert_eq!(m.validate(), Ok(()));
    let mut l = Ledger::new();
    let mut bad = init_msg(5, None);
    bad.symbol = s("X");
    assert_eq!(instantiate(&mut l, &s("A"), bad), Err(ContractError::InvalidMetadata));
    assert_eq!(query_token_info(&l).err(), Some(ContractError::NotInitialized));
    assert_eq!(query_balance(&l, &s("A")), 0);
}

#[test]
fn cap_is_read_from_message() {
    assert_eq!(init_msg(1, minter_any(Some(7))).get_cap(), Some(7));
    assert_eq!(init_msg(1, minter_any(None)).get_cap(), None);
    assert_eq!(init_msg(1, None).get_cap(), None);
}

#[test]
fn token_info_and_minter() {
    let l = ledger_with(1000, Some(MinterData { minter: s("someone"), cap: Some(5000) }));
    let t = query_token_info(&l).unwrap();
    assert_eq!(t.name, "Test Token");
    assert_eq!(t.symbol, "TEST");
    assert_eq!(t.decimals, 6);
    assert_eq!(t.total_supply, 1000);
    let m = query_minter(&l).unwrap().unwrap();
    assert_eq!(m.minter, "A");
    assert_eq!(m.cap, Some(5000));
    assert!(query_minter(&ledger_with(1, None)).unwrap().is_none());
    assert_eq!(query_minter(&Ledger::new()).err(), Some(ContractError::NotInitialized));
}

#[test]
fn accounts_list_in_byte_order() {
    let mut l = ledger_with(1000, None);
    for r in ["b", "ab", "a", "B", "é", "z"] {
        assert_eq!(execute_transfer(&mut l, &s("A"), &s(r), 1), Ok(()));
    }
    let all = query_all_accounts(&l, None, None);
    assert_eq!(all, vec![s("A"), s("B"), s("a"), s("ab"), s("b"), s("z"), s("é")]);
    let after = query_all_accounts(&l, Some(s("a")), Some(2));
    assert_eq!(after, vec![s("ab"), s("b")]);
    let after_absent = query_all_accounts(&l, Some(s("aa")), Some(1));
    assert_eq!(after_absent, vec![s("ab")]);
}

#[test]
fn page_limits_are_clamped() {
    let mut l = ledger_with(10_000, None);
    for i in 0..40 {
        assert_eq!(execute_transfer(&mut l, &s("A"), &format!("acct{:02}", i), 1), Ok(()));
    }
    assert_eq!(query_all_accounts(&l, None, None).len(), 10);
    assert_eq!(query_all_accounts(&l, None, Some(0)).len(), 1);
    assert_eq!(query_all_accounts(&l, None, Some(31)).len(), 30);
    assert_eq!(query_all_accounts(&l, None, Some(100)).len(), 30);
    assert_eq!(query_all_accounts(&l, None, Some(7)).len(), 7);
}

#[test]
fn pages_chain_to_the_full_key_set() {
    let mut l = ledger_with(10_000, None);
    let mut expected = vec![s("A")];
    for i in 0..37 {
        let name = format!("k{:03}", (i * 17) % 37);
        assert_eq!(execute_transfer(&mut l, &s("A"), &name, 1), Ok(()));
        expected.push(name);
    }
    expected.sort();
    for limit in 1..=30u32 {
        let mut seen: Vec<String> = Vec::new();
        let mut start: Option<String> = None;
        loop {
            let page = query_all_accounts(&l, start.clone(), Some(limit));
            seen.extend(page.iter().cloned());
            if page.len() < limit as usize {
                break;
            }
            start = page.last().cloned();
        }
        assert_eq!(seen, expected, "limit {}", limit);
    }
}

#[test]
fn allowance_listings_by_owner_and_spender() {
    let mut l = ledger_with(1000, None);
    assert_eq!(execute_transfer(&mut l, &s("A"), &s("O2"), 100), Ok(()));
    assert_eq!(execute_approve(&mut l, &s("A"), &s("S2"), 20), Ok(()));
    assert_eq!(execute_approve(&mut l, &s("A"), &s("S1"), 10), Ok(()));
    assert_eq!(execute_approve(&mut l, &s("O2"), &s("S1"), 30), Ok(()));

    let owned = query_owner_allowances(&l, &s("A"), None, None);
    assert_eq!(owned.len(), 2);
    assert_eq!(owned[0].spender, "S1");
    assert_eq!(owned[0].allowance, 10);
    assert_eq!(owned[1].spender, "S2");
    assert_eq!(owned[1].allowance, 20);
    let owned_after = query_owner_allowances(&l, &s("A"), Some(s("S1")), None);
    assert_eq!(owned_after.len(), 1);
    assert_eq!(owned_after[0].spender, "S2");

    let granted = query_spender_allowances(&l, &s("S1"), None, None);
    assert_eq!(granted.len(), 2);
    assert_eq!(granted[0].owner, "A");
    assert_eq!(granted[0].allowance, 10);
    assert_eq!(granted[1].owner, "O2");
    assert_eq!(granted[1].allowance, 30);
    assert_eq!(granted[1].expires, Expiration::Never);

    assert_eq!(
        execute_transfer_from(&mut l, &s("S1"), &s("O2"), &s("S1"), 5, block()),
        Ok(())
    );
    let granted = query_spender_allowances(&l, &s("S1"), None, None);
    assert_eq!(granted.len(), 1);
    assert_eq!(granted[0].owner, "A");
    assert!(query_spender_allowances(&l, &s("nobody"), None, None).is_empty());
}

#[test]
fn execute_and_query_dispatch() {
    let mut l = ledger_with(1000, minter_any(None));
    let caller = s("A");
    let msg = ExecuteMsg::Transfer { recipient: s("B"), amount: 10 };
    assert_eq!(execute(&mut l, &caller, block(), msg), Ok(Action::Transfer));
    let msg = ExecuteMsg::Mint { recipient: s("B"), amount: 5 };
    assert_eq!(execute(&mut l, &caller, block(), msg), Ok(Action::Mint));
    let msg = ExecuteMsg::Burn { amount: 5 };
    assert_eq!(execute(&mut l, &caller, block(), msg), Ok(Action::Burn));
    let msg = ExecuteMsg::Approve { spender: s("C"), amount: 5 };
    assert_eq!(execute(&mut l, &caller, block(), msg), Ok(Action::Approve));
    let msg = ExecuteMsg::TransferFrom { owner: s("A"), recipient: s("C"), amount: 5 };
    assert_eq!(execute(&mut l, &s("C"), block(), msg), Ok(Action::TransferFrom));
    let msg = ExecuteMsg::TransferFrom { owner: s("A"), recipient: s("C"), amount: 5 };
    assert_eq!(execute(&mut l, &s("C"), block(), msg), Err(ContractError::Unauthorized));

    match query(&l, QueryMsg::Balance { address: s("B") }) {
        Ok(QueryResponse::Balance(b)) => assert_eq!(b, 15),
        other => panic!("unexpected {:?}", other),
    }
    match query(&l, QueryMsg::TokenInfo {}) {
        Ok(QueryResponse::TokenInfo(t)) => assert_eq!(t.total_supply, 1000),
        other => panic!("unexpected {:?}", other),
    }
    match query(&l, QueryMsg::Minter {}) {
        Ok(QueryResponse::Minter(Some(m))) => assert_eq!(m.minter, "A"),
        other => panic!("unexpected {:?}", other),
    }
    match query(&l, QueryMsg::Allowance { owner: s("A"), spender: s("C") }) {
        Ok(QueryResponse::Allowance(a)) => assert_eq!(a.allowance, 0),
        other => panic!("unexpected {:?}", other),
    }
    match query(&l, QueryMsg::AllAccounts { start_after: None, limit: None }) {
        Ok(QueryResponse::AllAccounts(a)) => assert_eq!(a, vec![s("A"), s("B"), s("C")]),
        other => panic!("unexpected {:?}", other),
    }
    let q = QueryMsg::AllAllowances { owner: s("A"), start_after: None, limit: None };
    match query(&l, q) {
        Ok(QueryResponse::AllAllowances(a)) => assert!(a.is_empty()),
        other => panic!("unexpected {:?}", other),
    }
    let q = QueryMsg::AllSpenderAllowances { spender: s("C"), start_after: None, limit: None };
    match query(&l, q) {
        Ok(QueryResponse::AllSpenderAllowances(a)) => assert!(a.is_empty()),
        other => panic!("unexpected {:?}", other),
    }
    assert_eq!(
        query(&Ledger::new(), QueryMsg::TokenInfo {}).err(),
        Some(ContractError::NotInitialized)
    );
}

#[test]
fn transfer_from_with_expired_allowance_fails() {
    let mut l = ledger_with(1000, None);
    let expiring = Allowance { allowance: 300, expires: Expiration::AtHeight(50) };
    l.set_allowance(&s("A"), &s("B"), expiring);
    assert_eq!(
        execute_transfer_from(&mut l, &s("B"), &s("A"), &s("B"), 10, block()),
        Err(ContractError::AllowanceExpired)
    );
    assert_eq!(query_balance(&l, &s("A")), 1000);
    assert_eq!(query_allowance(&l, &s("A"), &s("B")).allowance, 300);
    let early = BlockInfo { height: 49, time: 0 };
    assert_eq!(execute_transfer_from(&mut l, &s("B"), &s("A"), &s("B"), 10, early), Ok(()));
    assert_eq!(query_balance(&l, &s("B")), 10);
}

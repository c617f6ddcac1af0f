//! The ledger's records and the store that holds them.
use vstd::prelude::*;
use crate::pagination::{key_set, views};
use crate::table::{
    has_key, keys_unique, lemma_sum_push, lemma_sum_update, lemma_table_index, lemma_table_push,
    lemma_table_remove, lemma_table_update, sum_values, table_map,
};

verus! {

/// The chain position a request executes at.
#[derive(Clone, Copy, Debug, PartialEq, Eq, Structural)]
pub struct BlockInfo {
    pub height: u64,
    /// Block time in nanoseconds since the Unix epoch.
    pub time: u64,
}

/// When an allowance stops being usable.
#[derive(Clone, Copy, Debug, PartialEq, Eq, Structural)]
pub enum Expiration {
    /// Expires once the block height reaches this value.
    AtHeight(u64),
    /// Expires once the block time (nanoseconds) reaches this value.
    AtTime(u64),
    Never,
}

impl Expiration {
    pub open spec fn spec_is_expired(self, block: BlockInfo) -> bool {
        match self {
            Expiration::AtHeight(h) => block.height >= h,
            Expiration::AtTime(t) => block.time >= t,
            Expiration::Never => false,
        }
    }

    #[verifier::when_used_as_spec(spec_is_expired)]
    pub fn is_expired(self, block: BlockInfo) -> (r: bool)
        ensures
            r == self.spec_is_expired(block),
    {
        match self {
            Expiration::AtHeight(h) => block.height >= h,
            Expiration::AtTime(t) => block.time >= t,
            Expiration::Never => false,
        }
    }
}

impl Default for Expiration {
    fn default() -> (r: Expiration)
        ensures
            r == Expiration::Never,
    {
        Expiration::Never
    }
}

/// A delegated spending permission.
#[derive(Clone, Copy, Debug, PartialEq, Eq, Structural)]
pub struct Allowance {
    pub allowance: u128,
    pub expires: Expiration,
}

impl Allowance {
    /// What an absent allowance reads as: nothing, never expiring.
    pub open spec fn none() -> Allowance {
        Allowance { allowance: 0, expires: Expiration::Never }
    }
}

impl Default for Allowance {
    fn default() -> (r: Allowance)
        ensures
            r == Allowance::none(),
    {
        Allowance { allowance: 0, expires: Expiration::Never }
    }
}

/// The mint authority: who may mint and burn, and an optional supply cap.
#[derive(Clone, Debug)]
pub struct MinterData {
    pub minter: String,
    pub cap: Option<u128>,
}

/// The token's metadata record.
#[derive(Clone, Debug)]
pub struct TokenInfo {
    pub name: String,
    pub symbol: String,
    pub decimals: u8,
    pub total_supply: u128,
    pub mint: Option<MinterData>,
}

impl MinterData {
    /// A field-by-field copy.
    pub fn duplicate(&self) -> (r: MinterData)
        ensures
            r == *self,
    {
        MinterData { minter: self.minter.clone(), cap: self.cap }
    }
}

impl TokenInfo {
    /// A field-by-field copy.
    pub fn duplicate(&self) -> (r: TokenInfo)
        ensures
            r == *self,
    {
        let mint = match &self.mint {
            Some(m) => Some(m.duplicate()),
            None => None,
        };
        TokenInfo {
            name: self.name.clone(),
            symbol: self.symbol.clone(),
            decimals: self.decimals,
            total_supply: self.total_supply,
            mint,
        }
    }
}

/// A balance read from a balance map: an absent account holds zero.
pub open spec fn balance_in(m: Map<Seq<char>, u128>, k: Seq<char>) -> u128 {
    if m.contains_key(k) {
        m[k]
    } else {
        0
    }
}

/// An allowance read from an allowance map: an absent one reads as none.
pub open spec fn allowance_in(
    m: Map<(Seq<char>, Seq<char>), Allowance>,
    owner: Seq<char>,
    spender: Seq<char>,
) -> Allowance {
    if m.contains_key((owner, spender)) {
        m[(owner, spender)]
    } else {
        Allowance::none()
    }
}

/// The spenders that `owner` has granted an allowance to.
pub open spec fn spenders_in(m: Map<(Seq<char>, Seq<char>), Allowance>, owner: Seq<char>) -> Set<
    Seq<char>,
> {
    Set::new(|s: Seq<char>| m.contains_key((owner, s)))
}

/// The owners that have granted `spender` an allowance.
pub open spec fn owners_in(m: Map<(Seq<char>, Seq<char>), Allowance>, spender: Seq<char>) -> Set<
    Seq<char>,
> {
    Set::new(|o: Seq<char>| m.contains_key((o, spender)))
}

/// What a ledger holds.
pub ghost struct LedgerView {
    /// The metadata record, once initialized.
    pub token: Option<TokenInfo>,
    /// Balance per account.
    pub balances: Map<Seq<char>, u128>,
    /// Allowance per (owner, spender).
    pub allowances: Map<(Seq<char>, Seq<char>), Allowance>,
    /// The sum of all balances.
    pub balance_sum: int,
}

/// The ledger's store: the metadata record, the balances and the
/// allowances. Each allowance is one record, listed both by owner and by
/// spender.
pub struct Ledger {
    token: Option<TokenInfo>,
    balances: Vec<(String, u128)>,
    allowances: Vec<((String, String), Allowance)>,
}

impl View for Ledger {
    type V = LedgerView;

    closed spec fn view(&self) -> LedgerView {
        LedgerView {
            token: self.token,
            balances: table_map(self.balances@),
            allowances: table_map(self.allowances@),
            balance_sum: sum_values(self.balances@),
        }
    }
}

impl Ledger {
    /// Each account and each (owner, spender) pair has at most one record.
    pub closed spec fn wf(&self) -> bool {
        keys_unique(self.balances@) && keys_unique(self.allowances@)
    }

    /// An empty, uninitialized store.
    pub fn new() -> (r: Ledger)
        ensures
            r.wf(),
            r@.token.is_none(),
            r@.balances == Map::<Seq<char>, u128>::empty(),
            r@.allowances == Map::<(Seq<char>, Seq<char>), Allowance>::empty(),
            r@.balance_sum == 0,
    {
        let r = Ledger { token: None, balances: Vec::new(), allowances: Vec::new() };
        assert(table_map(r.balances@) =~= Map::<Seq<char>, u128>::empty());
        assert(table_map(r.allowances@) =~= Map::<(Seq<char>, Seq<char>), Allowance>::empty());
        r
    }

    /// The metadata record, if the ledger is initialized.
    pub fn token_info(&self) -> (r: &Option<TokenInfo>)
        ensures
            *r == self@.token,
    {
        &self.token
    }

    /// Replaces the metadata record.
    pub fn set_token_info(&mut self, t: TokenInfo)
        requires
            old(self).wf(),
        ensures
            final(self).wf(),
            final(self)@ == (LedgerView { token: Some(t), ..old(self)@ }),
    {
        self.token = Some(t);
    }

    /// Sets the recorded total supply of an initialized ledger.
    pub fn set_total_supply(&mut self, supply: u128)
        requires
            old(self).wf(),
            old(self)@.token is Some,
        ensures
            final(self).wf(),
            final(self)@ == (LedgerView {
                token: Some(TokenInfo { total_supply: supply, ..old(self)@.token->Some_0 }),
                ..old(self)@
            }),
    {
        match &mut self.token {
            Some(t) => {
                t.total_supply = supply;
            },
            None => {},
        }
    }

    fn find_balance(&self, addr: &String) -> (r: Option<usize>)
        requires
            self.wf(),
        ensures
            match r {
                Some(i) => i < self.balances@.len() && self.balances@[i as int].0@ == addr@,
                None => !self@.balances.contains_key(addr@),
            },
    {
        let mut i: usize = 0;
        while i < self.balances.len()
            invariant
                i <= self.balances@.len(),
                forall|j: int| 0 <= j < i ==> (#[trigger] self.balances@[j]).0@ != addr@,
            decreases self.balances@.len() - i,
        {
            if self.balances[i].0 == *addr {
                return Some(i);
            }
            i = i + 1;
        }
        None
    }

    /// The balance of an account; zero when it has none.
    pub fn balance_of(&self, addr: &String) -> (r: u128)
        requires
            self.wf(),
        ensures
            r == balance_in(self@.balances, addr@),
    {
        match self.find_balance(addr) {
            Some(i) => {
                proof {
                    lemma_table_index(self.balances@, i as int);
                }
                self.balances[i].1
            },
            None => 0,
        }
    }

    /// Sets the balance of an account.
    pub fn set_balance(&mut self, addr: &String, amount: u128)
        requires
            old(self).wf(),
        ensures
            final(self).wf(),
            final(self)@.balances == old(self)@.balances.insert(addr@, amount),
            final(self)@.balance_sum == old(self)@.balance_sum - balance_in(
                old(self)@.balances,
                addr@,
            ) + amount,
            final(self)@.token == old(self)@.token,
            final(self)@.allowances == old(self)@.allowances,
    {
        let e = (addr.clone(), amount);
        match self.find_balance(addr) {
            Some(i) => {
                proof {
                    lemma_table_index(self.balances@, i as int);
                    lemma_table_update(self.balances@, i as int, e);
                    lemma_sum_update(self.balances@, i as int, e);
                }
                self.balances.set(i, e);
            },
            None => {
                proof {
                    lemma_table_push(self.balances@, e);
                    lemma_sum_push(self.balances@, e);
                }
                self.balances.push(e);
            },
        }
    }

    fn find_allowance(&self, owner: &String, spender: &String) -> (r: Option<usize>)
        requires
            self.wf(),
        ensures
            match r {
                Some(i) => i < self.allowances@.len() && self.allowances@[i as int].0@ == (
                owner@,
                spender@,
                ),
                None => !self@.allowances.contains_key((owner@, spender@)),
            },
    {
        let mut i: usize = 0;
        while i < self.allowances.len()
            invariant
                i <= self.allowances@.len(),
                forall|j: int|
                    0 <= j < i ==> (#[trigger] self.allowances@[j]).0@ != (owner@, spender@),
            decreases self.allowances@.len() - i,
        {
            if self.allowances[i].0.0 == *owner && self.allowances[i].0.1 == *spender {
                return Some(i);
            }
            i = i + 1;
        }
        None
    }

    /// The allowance that `owner` granted `spender`, if there is a record.
    pub fn allowance_of(&self, owner: &String, spender: &String) -> (r: Option<Allowance>)
        requires
            self.wf(),
        ensures
            match r {
                Some(a) => self@.allowances.contains_key((owner@, spender@)) && self@.allowances[(
                owner@,
                spender@,
                )] == a,
                None => !self@.allowances.contains_key((owner@, spender@)),
            },
    {
        match self.find_allowance(owner, spender) {
            Some(i) => {
                proof {
                    lemma_table_index(self.allowances@, i as int);
                }
                Some(self.allowances[i].1)
            },
            None => None,
        }
    }

    /// Writes the allowance record of a pair, replacing any earlier one.
    pub fn set_allowance(&mut self, owner: &String, spender: &String, a: Allowance)
        requires
            old(self).wf(),
        ensures
            final(self).wf(),
            final(self)@ == (LedgerView {
                allowances: old(self)@.allowances.insert((owner@, spender@), a),
                ..old(self)@
            }),
    {
        let e = ((owner.clone(), spender.clone()), a);
        match self.find_allowance(owner, spender) {
            Some(i) => {
                proof {
                    lemma_table_update(self.allowances@, i as int, e);
                }
                self.allowances.set(i, e);
            },
            None => {
                proof {
                    lemma_table_push(self.allowances@, e);
                }
                self.allowances.push(e);
            },
        }
    }

    /// Deletes the allowance record of a pair, if there is one.
    pub fn remove_allowance(&mut self, owner: &String, spender: &String)
        requires
            old(self).wf(),
        ensures
            final(self).wf(),
            final(self)@ == (LedgerView {
                allowances: old(self)@.allowances.remove((owner@, spender@)),
                ..old(self)@
            }),
    {
        match self.find_allowance(owner, spender) {
            Some(i) => {
                proof {
                    lemma_table_remove(self.allowances@, i as int);
                }
                self.allowances.remove(i);
            },
            None => {
                assert(self@.allowances.remove((owner@, spender@)) =~= self@.allowances);
            },
        }
    }

    /// The accounts that hold a balance record, in no particular order.
    pub fn accounts(&self) -> (r: Vec<String>)
        requires
            self.wf(),
        ensures
            key_set(r@) == self@.balances.dom(),
    {
        let mut r: Vec<String> = Vec::new();
        let mut i: usize = 0;
        while i < self.balances.len()
            invariant
                i <= self.balances@.len(),
                r@.len() == i,
                forall|j: int| 0 <= j < i ==> (#[trigger] r@[j])@ == self.balances@[j].0@,
            decreases self.balances@.len() - i,
        {
            r.push(self.balances[i].0.clone());
            i = i + 1;
        }
        assert forall|k: Seq<char>| key_set(r@).contains(k) == self@.balances.dom().contains(k) by {
            if views(r@).contains(k) {
                let j = choose|j: int| 0 <= j < views(r@).len() && views(r@)[j] == k;
                assert(r@[j]@ == k);
                assert(self.balances@[j].0@ == k);
            }
            if has_key(self.balances@, k) {
                let j = choose|j: int| 0 <= j < self.balances@.len() && (#[trigger] self.balances@[j]).0@ == k;
                assert(views(r@)[j] == k);
            }
        }
        assert(key_set(r@) =~= self@.balances.dom());
        r
    }

    /// The spenders that `owner` has granted an allowance to, in no
    /// particular order.
    pub fn spenders_of(&self, owner: &String) -> (r: Vec<String>)
        requires
            self.wf(),
        ensures
            key_set(r@) == spenders_in(self@.allowances, owner@),
    {
        let mut r: Vec<String> = Vec::new();
        let mut i: usize = 0;
        while i < self.allowances.len()
            invariant
                i <= self.allowances@.len(),
                forall|j: int| 0 <= j < r@.len() ==> has_key(self.allowances@, (owner@, (#[trigger] r@[j])@)),
                forall|x: int| 0 <= x < i && (#[trigger] self.allowances@[x]).0.0@ == owner@ ==> views(r@).contains(self.allowances@[x].0.1@),
            decreases self.allowances@.len() - i,
        {
            if self.allowances[i].0.0 == *owner {
                let ghost old_r = views(r@);
                r.push(self.allowances[i].0.1.clone());
                proof {
                    assert(views(r@) =~= old_r.push(self.allowances@[i as int].0.1@));
                    assert(self.allowances@[i as int].0@ == (owner@, self.allowances@[i as int].0.1@));
                    assert forall|x: int| 0 <= x < i + 1 && (#[trigger] self.allowances@[x]).0.0@ == owner@ implies views(r@).contains(self.allowances@[x].0.1@) by {
                        if x < i {
                            let y = choose|y: int| 0 <= y < old_r.len() && old_r[y] == self.allowances@[x].0.1@;
                            assert(views(r@)[y] == old_r[y]);
                        } else {
                            assert(views(r@)[old_r.len() as int] == self.allowances@[x].0.1@);
                        }
                    }
                }
            }
            i = i + 1;
        }
        assert forall|k: Seq<char>| key_set(r@).contains(k) == spenders_in(self@.allowances, owner@).contains(k) by {
            if views(r@).contains(k) {
                let j = choose|j: int| 0 <= j < views(r@).len() && views(r@)[j] == k;
                assert(r@[j]@ == k);
            }
            if has_key(self.allowances@, (owner@, k)) {
                let x = choose|x: int| 0 <= x < self.allowances@.len() && (#[trigger] self.allowances@[x]).0@ == (owner@, k);
                assert(self.allowances@[x].0.0@ == owner@);
            }
        }
        assert(key_set(r@) =~= spenders_in(self@.allowances, owner@));
        r
    }

    /// The owners that have granted `spender` an allowance, in no
    /// particular order.
    pub fn owners_of(&self, spender: &String) -> (r: Vec<String>)
        requires
            self.wf(),
        ensures
            key_set(r@) == owners_in(self@.allowances, spender@),
    {
        let mut r: Vec<String> = Vec::new();
        let mut i: usize = 0;
        while i < self.allowances.len()
            invariant
                i <= self.allowances@.len(),
                forall|j: int| 0 <= j < r@.len() ==> has_key(self.allowances@, ((#[trigger] r@[j])@, spender@)),
                forall|x: int| 0 <= x < i && (#[trigger] self.allowances@[x]).0.1@ == spender@ ==> views(r@).contains(self.allowances@[x].0.0@),
            decreases self.allowances@.len() - i,
        {
            if self.allowances[i].0.1 == *spender {
                let ghost old_r = views(r@);
                r.push(self.allowances[i].0.0.clone());
                proof {
                    assert(views(r@) =~= old_r.push(self.allowances@[i as int].0.0@));
                    assert(self.allowances@[i as int].0@ == (self.allowances@[i as int].0.0@, spender@));
                    assert forall|x: int| 0 <= x < i + 1 && (#[trigger] self.allowances@[x]).0.1@ == spender@ implies views(r@).contains(self.allowances@[x].0.0@) by {
                        if x < i {
                            let y = choose|y: int| 0 <= y < old_r.len() && old_r[y] == self.allowances@[x].0.0@;
                            assert(views(r@)[y] == old_r[y]);
                        } else {
                            assert(views(r@)[old_r.len() as int] == self.allowances@[x].0.0@);
                        }
                    }
                }
            }
            i = i + 1;
        }
        assert forall|k: Seq<char>| key_set(r@).contains(k) == owners_in(self@.allowances, spender@).contains(k) by {
            if views(r@).contains(k) {
                let j = choose|j: int| 0 <= j < views(r@).len() && views(r@)[j] == k;
                assert(r@[j]@ == k);
            }
            if has_key(self.allowances@, (k, spender@)) {
                let x = choose|x: int| 0 <= x < self.allowances@.len() && (#[trigger] self.allowances@[x]).0@ == (k, spender@);
                assert(self.allowances@[x].0.1@ == spender@);
            }
        }
        assert(key_set(r@) =~= owners_in(self@.allowances, spender@));
        r
    }
}

} // verus!

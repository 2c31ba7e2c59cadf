use vstd::prelude::*;
use crate::bytes::clone_bytes;
use crate::errors::ExecutionError;
use crate::word::{Word, word_zero, word_val, word_add, word_of_be, pow256};

verus! {

/// The mathematical content of one account record.
pub struct AccountView {
    pub address: Word,
    pub nonce: u64,
    pub balance: Word,
    pub code: Seq<u8>,
}

/// What an account holds: nonce, balance and code.
#[derive(Debug)]
pub struct AddressData {
    pub nonce: u64,
    pub balance: Word,
    pub code: Vec<u8>,
}

/// One account record of the world state.
#[derive(Debug)]
pub struct StateData {
    pub address: Word,
    pub data: AddressData,
}

impl StateData {
    pub open spec fn view(&self) -> AccountView {
        AccountView {
            address: self.address,
            nonce: self.data.nonce,
            balance: self.data.balance,
            code: self.data.code@,
        }
    }

    /// A fresh account with the given balance and code and a zero nonce.
    pub fn new(address: Word, balance: Word, code: Vec<u8>) -> (r: StateData)
        ensures
            r@ == (AccountView { address, nonce: 0u64, balance, code: code@ }),
    {
        StateData { address, data: AddressData { nonce: 0, balance, code } }
    }
}

/// The world state: account records looked up by address, the first record
/// for an address being the authoritative one; absent accounts read as a
/// zero balance, a zero nonce and empty code.
#[derive(Debug)]
pub struct State {
    pub state: Vec<StateData>,
}

pub open spec fn state_contains(s: Seq<AccountView>, address: Word) -> bool
    decreases s.len(),
{
    if s.len() == 0 {
        false
    } else {
        s[0].address == address || state_contains(s.drop_first(), address)
    }
}

pub open spec fn state_balance(s: Seq<AccountView>, address: Word) -> Word
    decreases s.len(),
{
    if s.len() == 0 {
        word_zero()
    } else if s[0].address == address {
        s[0].balance
    } else {
        state_balance(s.drop_first(), address)
    }
}

pub open spec fn state_code(s: Seq<AccountView>, address: Word) -> Seq<u8>
    decreases s.len(),
{
    if s.len() == 0 {
        Seq::<u8>::empty()
    } else if s[0].address == address {
        s[0].code
    } else {
        state_code(s.drop_first(), address)
    }
}

pub open spec fn state_nonce(s: Seq<AccountView>, address: Word) -> u64
    decreases s.len(),
{
    if s.len() == 0 {
        0u64
    } else if s[0].address == address {
        s[0].nonce
    } else {
        state_nonce(s.drop_first(), address)
    }
}

/// The state with every record of `address` removed.
pub open spec fn remove_account_spec(s: Seq<AccountView>, address: Word) -> Seq<AccountView>
    decreases s.len(),
{
    if s.len() == 0 {
        Seq::<AccountView>::empty()
    } else if s[0].address == address {
        remove_account_spec(s.drop_first(), address)
    } else {
        seq![s[0]] + remove_account_spec(s.drop_first(), address)
    }
}

/// Updating the first record of an address changes that address and no other.
pub proof fn lemma_state_update(s: Seq<AccountView>, i: int, e: AccountView, a2: Word)
    requires
        0 <= i < s.len(),
        s[i].address == e.address,
        forall|j: int| 0 <= j < i ==> s[j].address != e.address,
    ensures
        state_balance(s.update(i, e), a2) == if a2 == e.address {
            e.balance
        } else {
            state_balance(s, a2)
        },
        state_code(s.update(i, e), a2) == if a2 == e.address {
            e.code
        } else {
            state_code(s, a2)
        },
        state_nonce(s.update(i, e), a2) == if a2 == e.address {
            e.nonce
        } else {
            state_nonce(s, a2)
        },
        state_contains(s.update(i, e), a2) == state_contains(s, a2),
    decreases s.len(),
{
    let s2 = s.update(i, e);
    if i == 0 {
        assert(s2[0] == e);
        assert(s2.drop_first() =~= s.drop_first());
    } else {
        assert(s2[0] == s[0]);
        assert(s2.drop_first() =~= s.drop_first().update(i - 1, e));
        lemma_state_update(s.drop_first(), i - 1, e, a2);
    }
}

/// Appending a record for an absent address sets that address and no other.
pub proof fn lemma_state_push(s: Seq<AccountView>, e: AccountView, a2: Word)
    requires
        forall|j: int| 0 <= j < s.len() ==> s[j].address != e.address,
    ensures
        state_balance(s.push(e), a2) == if a2 == e.address {
            e.balance
        } else {
            state_balance(s, a2)
        },
        state_code(s.push(e), a2) == if a2 == e.address {
            e.code
        } else {
            state_code(s, a2)
        },
        state_nonce(s.push(e), a2) == if a2 == e.address {
            e.nonce
        } else {
            state_nonce(s, a2)
        },
        state_contains(s.push(e), a2) == (state_contains(s, a2) || a2 == e.address),
    decreases s.len(),
{
    if s.len() == 0 {
        assert(s.push(e)[0] == e);
        assert(s.push(e).drop_first() =~= Seq::<AccountView>::empty());
        assert(state_balance(s.push(e).drop_first(), a2) == word_zero());
        assert(state_code(s.push(e).drop_first(), a2) =~= Seq::<u8>::empty());
        assert(state_nonce(s.push(e).drop_first(), a2) == 0u64);
        assert(!state_contains(s.push(e).drop_first(), a2));
    } else {
        assert(s.push(e)[0] == s[0]);
        assert(s.push(e).drop_first() =~= s.drop_first().push(e));
        lemma_state_push(s.drop_first(), e, a2);
    }
}

impl State {
    pub open spec fn view(&self) -> Seq<AccountView> {
        Seq::new(self.state@.len(), |i: int| self.state@[i]@)
    }

    /// Builds the state from raw entries `(address bytes, (nonce, balance
    /// bytes, code))`, in order; address and balance are big-endian
    /// quantities of at most 32 bytes.
    pub fn new(state_data: Vec<(Vec<u8>, (u64, Vec<u8>, Vec<u8>))>) -> (r: State)
        requires
            forall|i: int|
                0 <= i < state_data@.len() ==> (#[trigger] state_data@[i]).0@.len() <= 32
                    && state_data@[i].1.1@.len() <= 32,
        ensures
            r@.len() == state_data@.len(),
            forall|i: int|
                0 <= i < state_data@.len() ==> (#[trigger] r@[i]).address == word_of_be(
                    state_data@[i].0@,
                ) && r@[i].nonce == state_data@[i].1.0 && r@[i].balance == word_of_be(
                    state_data@[i].1.1@,
                ) && r@[i].code == state_data@[i].1.2@,
    {
        let mut state: Vec<StateData> = Vec::new();
        let n = state_data.len();
        for i in 0..n
            invariant
                n == state_data@.len(),
                state@.len() == i,
                forall|j: int|
                    0 <= j < state_data@.len() ==> (#[trigger] state_data@[j]).0@.len() <= 32
                        && state_data@[j].1.1@.len() <= 32,
                forall|j: int|
                    0 <= j < i ==> (#[trigger] state@[j]@).address == word_of_be(
                        state_data@[j].0@,
                    ) && state@[j]@.nonce == state_data@[j].1.0 && state@[j]@.balance
                        == word_of_be(state_data@[j].1.1@) && state@[j]@.code
                        == state_data@[j].1.2@,
            decreases n - i,
        {
            let entry = &state_data[i];
            let address = crate::word::word_from_be_bytes(&entry.0);
            let balance = crate::word::word_from_be_bytes(&entry.1.1);
            let code = clone_bytes(&entry.1.2);
            state.push(
                StateData {
                    address,
                    data: AddressData { nonce: entry.1.0, balance, code },
                },
            );
        }
        State { state }
    }

    /// An independent copy with the same accounts: the snapshot a sub-call runs on.
    pub fn duplicate(&self) -> (r: State)
        ensures
            r@ == self@,
    {
        let mut state: Vec<StateData> = Vec::new();
        let n = self.state.len();
        for i in 0..n
            invariant
                n == self.state@.len(),
                state@.len() == i,
                forall|k: int| 0 <= k < i ==> state@[k]@ == self.state@[k]@,
            decreases n - i,
        {
            let e = &self.state[i];
            state.push(
                StateData {
                    address: e.address,
                    data: AddressData {
                        nonce: e.data.nonce,
                        balance: e.data.balance,
                        code: clone_bytes(&e.data.code),
                    },
                },
            );
        }
        let r = State { state };
        proof {
            assert(r@ =~= self@);
        }
        r
    }

    /// The balance of an account; zero when absent.
    pub fn get_balance(&self, address: Word) -> (r: Word)
        ensures
            r == state_balance(self@, address),
    {
        let n = self.state.len();
        proof {
            assert(self@.skip(0) =~= self@);
        }
        for i in 0..n
            invariant
                n == self.state@.len(),
                state_balance(self@.skip(i as int), address) == state_balance(self@, address),
            decreases n - i,
        {
            proof {
                assert(self@.skip(i as int).drop_first() =~= self@.skip(i + 1));
                assert(self@.skip(i as int)[0] == self@[i as int]);
            }
            let e = &self.state[i];
            if crate::word::word_eq(&e.address, &address) {
                proof {
                    crate::word::lemma_word_val_injective(e.address, address);
                }
                return e.data.balance;
            }
            proof {
                crate::word::lemma_word_val_injective(e.address, address);
            }
        }
        proof {
            assert(self@.skip(n as int) =~= Seq::<AccountView>::empty());
        }
        crate::word::zero()
    }

    /// The code of an account; empty when absent.
    pub fn get_code(&self, address: Word) -> (r: Vec<u8>)
        ensures
            r@ == state_code(self@, address),
    {
        let n = self.state.len();
        proof {
            assert(self@.skip(0) =~= self@);
        }
        for i in 0..n
            invariant
                n == self.state@.len(),
                state_code(self@.skip(i as int), address) == state_code(self@, address),
            decreases n - i,
        {
            proof {
                assert(self@.skip(i as int).drop_first() =~= self@.skip(i + 1));
                assert(self@.skip(i as int)[0] == self@[i as int]);
            }
            let e = &self.state[i];
            if crate::word::word_eq(&e.address, &address) {
                proof {
                    crate::word::lemma_word_val_injective(e.address, address);
                }
                return clone_bytes(&e.data.code);
            }
            proof {
                crate::word::lemma_word_val_injective(e.address, address);
            }
        }
        proof {
            assert(self@.skip(n as int) =~= Seq::<AccountView>::empty());
        }
        Vec::new()
    }

    /// The nonce of an account; zero when absent.
    pub fn get_nonce(&self, address: Word) -> (r: u64)
        ensures
            r == state_nonce(self@, address),
    {
        let n = self.state.len();
        proof {
            assert(self@.skip(0) =~= self@);
        }
        for i in 0..n
            invariant
                n == self.state@.len(),
                state_nonce(self@.skip(i as int), address) == state_nonce(self@, address),
            decreases n - i,
        {
            proof {
                assert(self@.skip(i as int).drop_first() =~= self@.skip(i + 1));
                assert(self@.skip(i as int)[0] == self@[i as int]);
            }
            let e = &self.state[i];
            if crate::word::word_eq(&e.address, &address) {
                proof {
                    crate::word::lemma_word_val_injective(e.address, address);
                }
                return e.data.nonce;
            }
            proof {
                crate::word::lemma_word_val_injective(e.address, address);
            }
        }
        proof {
            assert(self@.skip(n as int) =~= Seq::<AccountView>::empty());
        }
        0
    }

    /// True iff the state holds a record for the address.
    pub fn contains_account(&self, address: Word) -> (r: bool)
        ensures
            r == state_contains(self@, address),
    {
        let n = self.state.len();
        proof {
            assert(self@.skip(0) =~= self@);
        }
        for i in 0..n
            invariant
                n == self.state@.len(),
                state_contains(self@.skip(i as int), address) == state_contains(self@, address),
            decreases n - i,
        {
            proof {
                assert(self@.skip(i as int).drop_first() =~= self@.skip(i + 1));
                assert(self@.skip(i as int)[0] == self@[i as int]);
            }
            let e = &self.state[i];
            if crate::word::word_eq(&e.address, &address) {
                proof {
                    crate::word::lemma_word_val_injective(e.address, address);
                }
                return true;
            }
            proof {
                crate::word::lemma_word_val_injective(e.address, address);
            }
        }
        proof {
            assert(self@.skip(n as int) =~= Seq::<AccountView>::empty());
        }
        false
    }

    /// Creates a new account holding `code` with `value_transferred` as its
    /// balance; fails iff the address already holds an account.
    pub fn save_code(&mut self, address: Word, code: Vec<u8>, value_transferred: Word) -> (r:
        Result<(), ExecutionError>)
        ensures
            match r {
                Ok(()) => !state_contains(old(self)@, address) && final(self)@ == old(
                    self,
                )@.push(
                    AccountView {
                        address,
                        nonce: 0u64,
                        balance: value_transferred,
                        code: code@,
                    },
                ),
                Err(e) => e == ExecutionError::ContractAddressCollision && state_contains(
                    old(self)@,
                    address,
                ) && final(self)@ == old(self)@,
            },
    {
        if self.contains_account(address) {
            Err(ExecutionError::ContractAddressCollision)
        } else {
            let ghost prev = self@;
            self.state.push(StateData::new(address, value_transferred, code));
            proof {
                assert(self@ =~= prev.push(
                    AccountView {
                        address,
                        nonce: 0u64,
                        balance: value_transferred,
                        code: code@,
                    },
                ));
            }
            Ok(())
        }
    }

    /// Removes every record of the address.
    pub fn delete_account(&mut self, address: Word)
        ensures
            final(self)@ == remove_account_spec(old(self)@, address),
    {
        let n = self.state.len();
        let mut kept: Vec<StateData> = Vec::new();
        proof {
            assert(self@.skip(0) =~= self@);
        }
        for i in 0..n
            invariant
                n == self.state@.len(),
                self@ == old(self)@,
                remove_account_spec(self@, address) =~= Seq::new(
                    kept@.len(),
                    |k: int| kept@[k]@,
                ) + remove_account_spec(self@.skip(i as int), address),
            decreases n - i,
        {
            proof {
                assert(self@.skip(i as int).drop_first() =~= self@.skip(i + 1));
                assert(self@.skip(i as int)[0] == self@[i as int]);
            }
            let e = &self.state[i];
            let ghost kept_before = Seq::new(kept@.len(), |k: int| kept@[k]@);
            if !crate::word::word_eq(&e.address, &address) {
                proof {
                    crate::word::lemma_word_val_injective(e.address, address);
                }
                kept.push(
                    StateData {
                        address: e.address,
                        data: AddressData {
                            nonce: e.data.nonce,
                            balance: e.data.balance,
                            code: clone_bytes(&e.data.code),
                        },
                    },
                );
                proof {
                    assert(Seq::new(kept@.len(), |k: int| kept@[k]@) =~= kept_before.push(
                        self@[i as int],
                    ));
                    assert(kept_before.push(self@[i as int]) =~= kept_before + seq![
                        self@[i as int],
                    ]);
                    assert((kept_before + seq![self@[i as int]]) + remove_account_spec(
                        self@.skip(i + 1),
                        address,
                    ) =~= kept_before + (seq![self@[i as int]] + remove_account_spec(
                        self@.skip(i + 1),
                        address,
                    )));
                }
            } else {
                proof {
                    crate::word::lemma_word_val_injective(e.address, address);
                }
            }
        }
        proof {
            assert(self@.skip(n as int) =~= Seq::<AccountView>::empty());
        }
        self.state = kept;
        proof {
            assert(final(self)@ =~= Seq::new(self.state@.len(), |k: int| self.state@[k]@));
            assert(final(self)@ + Seq::<AccountView>::empty() =~= final(self)@);
            assert(remove_account_spec(old(self)@, address) + Seq::<AccountView>::empty()
                =~= remove_account_spec(old(self)@, address));
        }
    }

    /// Adds `balance` (wrapping modulo 2^256) to the account at `dest`,
    /// creating the account if absent; no other account changes.
    pub fn transfer_balance(&mut self, balance: Word, dest: Word)
        ensures
            forall|a2: Word|
                word_val(#[trigger] state_balance(final(self)@, a2)) == if a2 == dest {
                    (word_val(state_balance(old(self)@, dest)) + word_val(balance)) % pow256()
                } else {
                    word_val(state_balance(old(self)@, a2))
                },
            forall|a2: Word| #[trigger]
                state_code(final(self)@, a2) == state_code(old(self)@, a2),
            forall|a2: Word| #[trigger]
                state_nonce(final(self)@, a2) == state_nonce(old(self)@, a2),
            forall|a2: Word| #[trigger]
                state_contains(final(self)@, a2) == (state_contains(old(self)@, a2) || a2
                    == dest),
    {
        let n = self.state.len();
        proof {
            assert(self@.skip(0) =~= self@);
        }
        for i in 0..n
            invariant
                n == self.state@.len(),
                self@ == old(self)@,
                state_balance(self@.skip(i as int), dest) == state_balance(self@, dest),
                forall|j: int| 0 <= j < i ==> (#[trigger] self@[j]).address != dest,
            decreases n - i,
        {
            proof {
                assert(self@.skip(i as int).drop_first() =~= self@.skip(i + 1));
                assert(self@.skip(i as int)[0] == self@[i as int]);
            }
            let found = crate::word::word_eq(&self.state[i].address, &dest);
            proof {
                crate::word::lemma_word_val_injective(self@[i as int].address, dest);
            }
            if found {
                let new_balance = word_add(self.state[i].data.balance, balance);
                let code = clone_bytes(&self.state[i].data.code);
                let nonce = self.state[i].data.nonce;
                let ghost e = AccountView {
                    address: dest,
                    nonce,
                    balance: new_balance,
                    code: code@,
                };
                let ghost prev = self@;
                self.state[i] = StateData {
                    address: dest,
                    data: AddressData { nonce, balance: new_balance, code },
                };
                proof {
                    assert(self@ =~= prev.update(i as int, e));
                    lemma_first_match(prev, i as int, dest);
                    assert forall|a2: Word|
                        word_val(#[trigger] state_balance(self@, a2)) == (if a2 == dest {
                            (word_val(state_balance(prev, dest)) + word_val(balance)) % pow256()
                        } else {
                            word_val(state_balance(prev, a2))
                        }) by {
                        lemma_state_update(prev, i as int, e, a2);
                    }
                    assert forall|a2: Word| #[trigger]
                        state_code(self@, a2) == state_code(prev, a2) by {
                        lemma_state_update(prev, i as int, e, a2);
                        assert(e.code =~= prev[i as int].code);
                    }
                    assert forall|a2: Word| #[trigger]
                        state_nonce(self@, a2) == state_nonce(prev, a2) by {
                        lemma_state_update(prev, i as int, e, a2);
                    }
                    assert forall|a2: Word| #[trigger]
                        state_contains(self@, a2) == (state_contains(prev, a2) || a2
                            == dest) by {
                        lemma_state_update(prev, i as int, e, a2);
                    }
                }
                return ;
            }
        }
        proof {
            assert(self@.skip(n as int) =~= Seq::<AccountView>::empty());
        }
        let ghost prev = self@;
        let ghost e = AccountView {
            address: dest,
            nonce: 0u64,
            balance: balance,
            code: Seq::<u8>::empty(),
        };
        self.state.push(StateData::new(dest, balance, Vec::new()));
        proof {
            assert(self@ =~= prev.push(e));
            lemma_not_contains(prev, dest);
            lemma_absent_defaults(prev, dest);
            crate::word::lemma_word_val_bound(balance);
            vstd::arithmetic::div_mod::lemma_small_mod(word_val(balance), pow256());
            assert forall|a2: Word|
                word_val(#[trigger] state_balance(self@, a2)) == (if a2 == dest {
                    (word_val(state_balance(prev, dest)) + word_val(balance)) % pow256()
                } else {
                    word_val(state_balance(prev, a2))
                }) by {
                lemma_state_push(prev, e, a2);
            }
            assert forall|a2: Word| #[trigger]
                state_code(self@, a2) == state_code(prev, a2) by {
                lemma_state_push(prev, e, a2);
                assert(e.code =~= Seq::<u8>::empty());
            }
            assert forall|a2: Word| #[trigger]
                state_nonce(self@, a2) == state_nonce(prev, a2) by {
                lemma_state_push(prev, e, a2);
            }
            assert forall|a2: Word| #[trigger]
                state_contains(self@, a2) == (state_contains(prev, a2) || a2 == dest) by {
                lemma_state_push(prev, e, a2);
            }
        }
    }
}

/// At the first record of an address, the lookups read that record.
pub proof fn lemma_first_match(s: Seq<AccountView>, i: int, address: Word)
    requires
        0 <= i < s.len(),
        s[i].address == address,
        forall|j: int| 0 <= j < i ==> s[j].address != address,
    ensures
        state_contains(s, address),
        state_balance(s, address) == s[i].balance,
        state_code(s, address) == s[i].code,
        state_nonce(s, address) == s[i].nonce,
    decreases i,
{
    if i == 0 {
    } else {
        assert(s.drop_first()[i - 1] == s[i]);
        assert(forall|j: int|
            0 <= j < i - 1 ==> s.drop_first()[j] == s[j + 1] && s[j + 1].address != address);
        lemma_first_match(s.drop_first(), i - 1, address);
    }
}

/// An address with no record is not contained.
pub proof fn lemma_not_contains(s: Seq<AccountView>, address: Word)
    requires
        forall|j: int| 0 <= j < s.len() ==> (#[trigger] s[j]).address != address,
    ensures
        !state_contains(s, address),
    decreases s.len(),
{
    if s.len() == 0 {
    } else {
        assert(forall|j: int|
            0 <= j < s.drop_first().len() ==> (#[trigger] s.drop_first()[j]) == s[j + 1]);
        lemma_not_contains(s.drop_first(), address);
    }
}

/// Removing an address empties its record and touches no other.
pub proof fn lemma_remove_lookup(s: Seq<AccountView>, addr: Word, a2: Word)
    ensures
        a2 == addr ==> !state_contains(remove_account_spec(s, addr), a2) && state_balance(
            remove_account_spec(s, addr),
            a2,
        ) == word_zero() && state_code(remove_account_spec(s, addr), a2) == Seq::<u8>::empty()
            && state_nonce(remove_account_spec(s, addr), a2) == 0u64,
        a2 != addr ==> state_balance(remove_account_spec(s, addr), a2) == state_balance(s, a2)
            && state_code(remove_account_spec(s, addr), a2) == state_code(s, a2) && state_nonce(
            remove_account_spec(s, addr),
            a2,
        ) == state_nonce(s, a2) && state_contains(remove_account_spec(s, addr), a2)
            == state_contains(s, a2),
    decreases s.len(),
{
    if s.len() == 0 {
        assert(remove_account_spec(s, addr) =~= Seq::<AccountView>::empty());
        assert(state_code(remove_account_spec(s, addr), a2) =~= Seq::<u8>::empty());
    } else {
        lemma_remove_lookup(s.drop_first(), addr, a2);
        if s[0].address == addr {
        } else {
            let t = remove_account_spec(s.drop_first(), addr);
            assert(remove_account_spec(s, addr) == seq![s[0]] + t);
            assert((seq![s[0]] + t)[0] == s[0]);
            assert((seq![s[0]] + t).drop_first() =~= t);
        }
    }
}

/// An address that is not contained has no record at any index.
pub proof fn lemma_not_contains_no_match(s: Seq<AccountView>, address: Word)
    requires
        !state_contains(s, address),
    ensures
        forall|j: int| 0 <= j < s.len() ==> (#[trigger] s[j]).address != address,
    decreases s.len(),
{
    if s.len() == 0 {
    } else {
        lemma_not_contains_no_match(s.drop_first(), address);
        assert(forall|j: int|
            1 <= j < s.len() ==> (#[trigger] s[j]) == s.drop_first()[j - 1]);
    }
}

/// An absent address reads as zero balance, empty code, zero nonce.
pub proof fn lemma_absent_defaults(s: Seq<AccountView>, address: Word)
    requires
        !state_contains(s, address),
    ensures
        state_balance(s, address) == word_zero(),
        state_code(s, address) == Seq::<u8>::empty(),
        state_nonce(s, address) == 0u64,
    decreases s.len(),
{
    if s.len() == 0 {
        assert(state_code(s, address) =~= Seq::<u8>::empty());
    } else {
        lemma_absent_defaults(s.drop_first(), address);
    }
}

} // verus!

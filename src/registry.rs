use vstd::prelude::*;

use crate::error::ContractError;
use crate::msg::Snip20Data;

verus! {

/// The block size to which messages for a token contract are padded.
pub const BLOCK_SIZE: usize = 256;

/// The viewing key this bridge sets on every registered token.
pub const VIEWING_KEY: &'static str = "SNIP20-ICS20";

/// A message to emit to a registered token contract.
#[derive(Debug, Clone, PartialEq, Eq)]
pub enum TokenEffect {
    /// Register the contract with code hash `code_hash` as a receiver of
    /// deposit notifications.
    RegisterReceive { code_hash: String, token_code_hash: String, token_address: String },
    /// Set the viewing key `key` for later queries.
    SetViewingKey { key: String, token_code_hash: String, token_address: String },
}

/// The map from token address to code hash after registering `tokens`, in
/// order, on top of `before`: a later entry for an address wins.
pub open spec fn registered(before: Map<Seq<char>, Seq<char>>, tokens: Seq<Snip20Data>) -> Map<Seq<char>, Seq<char>>
    decreases tokens.len(),
{
    if tokens.len() == 0 {
        before
    } else {
        registered(before, tokens.drop_last()).insert(tokens.last().address@, tokens.last().code_hash@)
    }
}

/// The two messages that registering `token` emits, for a contract whose own
/// code hash is `code_hash`.
pub open spec fn effects_ok(effects: Seq<TokenEffect>, i: int, code_hash: Seq<char>, token: Snip20Data) -> bool {
    &&& effects[2 * i] matches TokenEffect::RegisterReceive { code_hash: h, token_code_hash: t, token_address: a }
        && h@ == code_hash && t@ == token.code_hash@ && a@ == token.address@
    &&& effects[2 * i + 1] matches TokenEffect::SetViewingKey { key: k, token_code_hash: t, token_address: a }
        && k@ == VIEWING_KEY@ && t@ == token.code_hash@ && a@ == token.address@
}

/// The code hash recorded for each registered token address.
pub struct TokenRegistry {
    addresses: Vec<String>,
    hashes: Vec<String>,
    map: Ghost<Map<Seq<char>, Seq<char>>>,
}

impl TokenRegistry {
    /// The registered tokens, by address.
    pub closed spec fn tokens(&self) -> Map<Seq<char>, Seq<char>> {
        self.map@
    }

    /// Each address is recorded with its hash, every recorded address has an
    /// entry, and no address appears twice.
    pub closed spec fn wf(&self) -> bool {
        &&& self.addresses@.len() == self.hashes@.len()
        &&& forall|i: int|
            0 <= i < self.addresses@.len() ==> #[trigger] self.map@.contains_key(self.addresses@[i]@)
                && self.map@[self.addresses@[i]@] == self.hashes@[i]@
        &&& forall|k: Seq<char>|
            #[trigger] self.map@.contains_key(k) ==> exists|i: int| 0 <= i < self.addresses@.len() && self.addresses@[i]@ == k
        &&& forall|i: int, j: int| 0 <= i < j < self.addresses@.len() ==> self.addresses@[i]@ != self.addresses@[j]@
    }

    /// A registry with no tokens.
    pub fn new() -> (r: TokenRegistry)
        ensures
            r.wf(),
            r.tokens() == Map::<Seq<char>, Seq<char>>::empty(),
    {
        TokenRegistry { addresses: Vec::new(), hashes: Vec::new(), map: Ghost(Map::empty()) }
    }

    fn find(&self, address: &String) -> (r: Option<usize>)
        requires
            self.wf(),
        ensures
            match r {
                Some(i) => i < self.addresses@.len() && self.addresses@[i as int]@ == address@,
                None => !self.tokens().contains_key(address@),
            },
    {
        let mut i: usize = 0;
        while i < self.addresses.len()
            invariant
                self.wf(),
                i <= self.addresses@.len(),
                forall|j: int| 0 <= j < i ==> self.addresses@[j]@ != address@,
            decreases self.addresses@.len() - i,
        {
            if self.addresses[i] == *address {
                return Some(i);
            }
            i = i + 1;
        }
        proof {
            if self.map@.contains_key(address@) {
                assert(exists|j: int| 0 <= j < self.addresses@.len() && self.addresses@[j]@ == address@);
            }
        }
        None
    }

    /// The code hash registered for `address`, if any.
    pub fn lookup(&self, address: &String) -> (r: Option<String>)
        requires
            self.wf(),
        ensures
            match r {
                Some(h) => self.tokens().contains_key(address@) && h@ == self.tokens()[address@],
                None => !self.tokens().contains_key(address@),
            },
    {
        match self.find(address) {
            Some(i) => {
                assert(self.map@.contains_key(self.addresses@[i as int]@));
                Some(self.hashes[i].clone())
            },
            None => None,
        }
    }

    /// Records `code_hash` for `address`, replacing any earlier hash.
    pub fn insert(&mut self, address: String, code_hash: String)
        requires
            old(self).wf(),
        ensures
            final(self).wf(),
            final(self).tokens() == old(self).tokens().insert(address@, code_hash@),
    {
        let ghost k = address@;
        let ghost v = code_hash@;
        let ghost old_addresses = self.addresses@;
        match self.find(&address) {
            Some(i) => {
                self.hashes.set(i, code_hash);
                self.map = Ghost(self.map@.insert(k, v));
                assert forall|j: int| 0 <= j < self.addresses@.len() implies #[trigger] self.map@.contains_key(self.addresses@[j]@)
                    && self.map@[self.addresses@[j]@] == self.hashes@[j]@ by {
                    assert(self.addresses@[j] == old_addresses[j]);
                    if j != i {
                        assert(old(self).map@.contains_key(old_addresses[j]@));
                        assert(self.hashes@[j] == old(self).hashes@[j]);
                        if j < i {
                            assert(old_addresses[j]@ != old_addresses[i as int]@);
                        } else {
                            assert(old_addresses[i as int]@ != old_addresses[j]@);
                        }
                    }
                }
                assert forall|q: Seq<char>| #[trigger] self.map@.contains_key(q) implies exists|j: int|
                    0 <= j < self.addresses@.len() && self.addresses@[j]@ == q by {
                    if q != k {
                        let j = choose|j: int| 0 <= j < old_addresses.len() && old_addresses[j]@ == q;
                        assert(self.addresses@[j]@ == q);
                    } else {
                        assert(self.addresses@[i as int]@ == q);
                    }
                }
            },
            None => {
                self.addresses.push(address);
                self.hashes.push(code_hash);
                self.map = Ghost(self.map@.insert(k, v));
                let ghost n = old_addresses.len() as int;
                assert(self.addresses@[n]@ == k);
                assert forall|j: int| 0 <= j < self.addresses@.len() implies #[trigger] self.map@.contains_key(self.addresses@[j]@)
                    && self.map@[self.addresses@[j]@] == self.hashes@[j]@ by {
                    if j < n {
                        assert(old(self).map@.contains_key(old_addresses[j]@));
                        assert(old(self).hashes@[j] == self.hashes@[j]);
                    }
                }
                assert forall|q: Seq<char>| #[trigger] self.map@.contains_key(q) implies exists|j: int|
                    0 <= j < self.addresses@.len() && self.addresses@[j]@ == q by {
                    if q != k {
                        let j = choose|j: int| 0 <= j < old_addresses.len() && old_addresses[j]@ == q;
                        assert(self.addresses@[j]@ == q);
                    } else {
                        assert(self.addresses@[n]@ == q);
                    }
                }
                assert forall|a: int, b: int| 0 <= a < b < self.addresses@.len() implies self.addresses@[a]@ != self.addresses@[b]@ by {
                    if b == n {
                        assert(old(self).map@.contains_key(old_addresses[a]@));
                    }
                }
            },
        }
    }
}

/// Registers a batch of tokens. `valid[i]` says whether the host accepted the
/// address of `tokens[i]`. Where one is rejected the whole batch fails with
/// `InvalidAddress` and nothing is stored; otherwise every token is stored, a
/// later entry for an address winning, and two messages are produced per token,
/// in order: register this contract (code hash `contract_code_hash`) as a
/// receiver, and set the viewing key.
pub fn register_tokens(
    registry: &mut TokenRegistry,
    contract_code_hash: &String,
    tokens: Vec<Snip20Data>,
    valid: &Vec<bool>,
) -> (r: Result<Vec<TokenEffect>, ContractError>)
    requires
        old(registry).wf(),
        valid@.len() == tokens@.len(),
    ensures
        final(registry).wf(),
        r is Ok <==> forall|i: int| 0 <= i < valid@.len() ==> valid@[i],
        r is Err ==> (r matches Err(ContractError::InvalidAddress)),
        r is Err ==> final(registry).tokens() == old(registry).tokens(),
        r matches Ok(effects) ==> final(registry).tokens() == registered(old(registry).tokens(), tokens@)
            && effects@.len() == 2 * tokens@.len()
            && forall|i: int| 0 <= i < tokens@.len() ==> effects_ok(effects@, i, contract_code_hash@, #[trigger] tokens@[i]),
{
    let mut k: usize = 0;
    while k < valid.len()
        invariant
            registry.wf(),
            registry.tokens() == old(registry).tokens(),
            k <= valid@.len(),
            forall|i: int| 0 <= i < k ==> valid@[i],
        decreases valid@.len() - k,
    {
        if !valid[k] {
            return Err(ContractError::InvalidAddress);
        }
        k = k + 1;
    }
    let mut effects: Vec<TokenEffect> = Vec::new();
    let mut i: usize = 0;
    proof {
        reveal_strlit("SNIP20-ICS20");
    }
    while i < tokens.len()
        invariant
            registry.wf(),
            i <= tokens@.len(),
            registry.tokens() == registered(old(registry).tokens(), tokens@.subrange(0, i as int)),
            effects@.len() == 2 * i,
            forall|j: int| 0 <= j < i ==> effects_ok(effects@, j, contract_code_hash@, #[trigger] tokens@[j]),
        decreases tokens@.len() - i,
    {
        let address = tokens[i].address.clone();
        let token_code_hash = tokens[i].code_hash.clone();
        registry.insert(address.clone(), token_code_hash.clone());
        proof {
            let s = tokens@.subrange(0, i + 1);
            assert(s.drop_last() =~= tokens@.subrange(0, i as int));
        }
        let ghost before = effects@;
        effects.push(TokenEffect::RegisterReceive {
            code_hash: contract_code_hash.clone(),
            token_code_hash: token_code_hash.clone(),
            token_address: address.clone(),
        });
        effects.push(TokenEffect::SetViewingKey {
            key: String::from_str(VIEWING_KEY),
            token_code_hash,
            token_address: address,
        });
        assert forall|j: int| 0 <= j < i + 1 implies effects_ok(effects@, j, contract_code_hash@, #[trigger] tokens@[j]) by {
            if j < i {
                assert(effects@[2 * j] == before[2 * j]);
                assert(effects@[2 * j + 1] == before[2 * j + 1]);
            }
        }
        i = i + 1;
    }
    assert(tokens@.subrange(0, tokens@.len() as int) =~= tokens@);
    Ok(effects)
}

/// After a successful registration, each address of the batch maps to the
/// code hash of its last entry in the batch.
pub proof fn lemma_registered_lookup(before: Map<Seq<char>, Seq<char>>, tokens: Seq<Snip20Data>, i: int)
    requires
        0 <= i < tokens.len(),
        forall|j: int| i < j < tokens.len() ==> #[trigger] tokens[j].address@ != tokens[i].address@,
    ensures
        registered(before, tokens).contains_key(tokens[i].address@),
        registered(before, tokens)[tokens[i].address@] == tokens[i].code_hash@,
    decreases tokens.len(),
{
    if i < tokens.len() - 1 {
        let s = tokens.drop_last();
        assert forall|j: int| i < j < s.len() implies #[trigger] s[j].address@ != s[i].address@ by {
            assert(s[j] == tokens[j]);
        }
        lemma_registered_lookup(before, s, i);
        assert(tokens.last() == tokens[tokens.len() - 1]);
    }
}

/// Addresses outside a batch keep what they were registered with before it.
pub proof fn lemma_registered_untouched(before: Map<Seq<char>, Seq<char>>, tokens: Seq<Snip20Data>, a: Seq<char>)
    requires
        forall|j: int| 0 <= j < tokens.len() ==> #[trigger] tokens[j].address@ != a,
    ensures
        registered(before, tokens).contains_key(a) == before.contains_key(a),
        before.contains_key(a) ==> registered(before, tokens)[a] == before[a],
    decreases tokens.len(),
{
    if tokens.len() > 0 {
        let s = tokens.drop_last();
        assert forall|j: int| 0 <= j < s.len() implies #[trigger] s[j].address@ != a by {
            assert(s[j] == tokens[j]);
        }
        lemma_registered_untouched(before, s, a);
        assert(tokens.last() == tokens[tokens.len() - 1]);
    }
}

} // verus!

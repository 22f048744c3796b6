//! The registry: the entry point that securitizes a token. It keeps one
//! wrapper per asset contract, refuses to wrap a wrapper, and records which
//! share ledger holds which token, in both directions.
use vstd::prelude::*;
use crate::actions::{Action, Code};
use crate::naming::{
    get_nft_address, get_shares_contract_name, get_wrapper_name, is_valid_account_id,
    lemma_encode_len, lemma_nft_addresses_injective, lemma_shares_names_injective,
    lemma_valid_has_no_slash, lemma_wrapper_names_injective, nft_address_of, shares_name_of,
    valid_account_id, wrapper_name_of,
};
use crate::string_map::StringMap;

verus! {

/// The funding, in yoctoNEAR, that a spawned actor receives unless the
/// registry is configured otherwise: 25 NEAR.
pub const DEFAULT_FUNDING: u128 = 25_000_000_000_000_000_000_000_000;

/// Why the registry refused a call.
#[derive(Debug, Clone, Copy, PartialEq, Eq, Structural)]
pub enum RegistryError {
    /// The exit price is zero.
    InvalidExitPrice,
    /// The shares count is zero.
    InvalidSharesCount,
    /// The exit price is not a multiple of the shares count.
    FractionalSharePrice,
    /// The asset contract is itself a wrapper.
    CannotWrapWrapper,
    /// The caller's id, the asset contract's id, or the id derived for the
    /// share ledger is not a valid account id.
    InvalidAccountId,
    /// The name derived for the share ledger or the wrapper is already
    /// recorded for another asset or asset contract. Names are derived
    /// injectively, so this only happens to records made under another
    /// registry id.
    NameTaken,
}

/// `a` and `b` are inverse maps: `a` maps `k` to `l` exactly when `b` maps
/// `l` to `k`.
pub open spec fn inverse(a: Map<Seq<char>, Seq<char>>, b: Map<Seq<char>, Seq<char>>) -> bool {
    &&& forall|k: Seq<char>| #[trigger] a.contains_key(k) ==> b.contains_key(a[k]) && b[a[k]] == k
    &&& forall|l: Seq<char>| #[trigger] b.contains_key(l) ==> a.contains_key(b[l]) && a[b[l]] == l
}

proof fn lemma_inverse_insert(
    a: Map<Seq<char>, Seq<char>>,
    b: Map<Seq<char>, Seq<char>>,
    k: Seq<char>,
    l: Seq<char>,
)
    requires
        inverse(a, b),
        a.contains_key(k) ==> a[k] == l,
        b.contains_key(l) ==> b[l] == k,
    ensures
        inverse(a.insert(k, l), b.insert(l, k)),
{
    let a2 = a.insert(k, l);
    let b2 = b.insert(l, k);
    assert forall|x: Seq<char>| #[trigger] a2.contains_key(x) implies b2.contains_key(a2[x]) && b2[a2[x]] == x by {
        if x != k {
            assert(a.contains_key(x));
            if a[x] == l {
                assert(b[l] == x);
            }
        }
    }
    assert forall|y: Seq<char>| #[trigger] b2.contains_key(y) implies a2.contains_key(b2[y]) && a2[b2[y]] == y by {
        if y != l {
            assert(b.contains_key(y));
            if b[y] == k {
                assert(a[k] == y);
            }
        }
    }
}

/// What `ensure_wrapper` issues: a spawn for a wrapper that is new.
pub open spec fn wrapper_actions(existed: bool, wrapper: String, funding: u128) -> Seq<Action> {
    if existed {
        seq![]
    } else {
        seq![Action::Spawn { account_id: wrapper, deposit: funding, code: Code::Wrapper }]
    }
}

/// The registry's state.
pub struct Fractose {
    /// `contract/token` to the account of its share ledger.
    pub nft_to_shares_address: StringMap,
    /// The account of a share ledger to the `contract/token` it holds.
    pub shares_to_nft_address: StringMap,
    /// An asset contract to its wrapper.
    pub contract_to_wrapper: StringMap,
    /// A wrapper to its asset contract; its keys are the wrapper set.
    pub wrapper_to_contract: StringMap,
    /// The funding of each spawned share ledger.
    pub shares_funding: u128,
    /// The funding of each spawned wrapper.
    pub wrapper_funding: u128,
}

impl Default for Fractose {
    fn default() -> (r: Fractose)
        ensures
            r.nft_to_shares_address@ == Map::<Seq<char>, Seq<char>>::empty(),
            r.shares_to_nft_address@ == Map::<Seq<char>, Seq<char>>::empty(),
            r.contract_to_wrapper@ == Map::<Seq<char>, Seq<char>>::empty(),
            r.wrapper_to_contract@ == Map::<Seq<char>, Seq<char>>::empty(),
            r.shares_funding == DEFAULT_FUNDING,
            r.wrapper_funding == DEFAULT_FUNDING,
            r.records_consistent(),
            forall|registry: Seq<char>| #[trigger] r.derived_under(registry),
    {
        Fractose::new(DEFAULT_FUNDING, DEFAULT_FUNDING)
    }
}

impl Fractose {
    /// `id` is a wrapper known to the registry.
    pub open spec fn is_wrapper(&self, id: Seq<char>) -> bool {
        self.wrapper_to_contract@.contains_key(id)
    }

    /// Each asset has at most one share ledger and each ledger one asset;
    /// each asset contract at most one wrapper and each wrapper one contract.
    pub open spec fn records_consistent(&self) -> bool {
        &&& inverse(self.nft_to_shares_address@, self.shares_to_nft_address@)
        &&& inverse(self.contract_to_wrapper@, self.wrapper_to_contract@)
    }

    /// Every record is the one derived under `registry`: each asset key is
    /// `contract/token` for a valid contract id and maps to that asset's
    /// ledger name, and each contract maps to its wrapper name.
    pub open spec fn derived_under(&self, registry: Seq<char>) -> bool {
        &&& self.records_consistent()
        &&& forall|k: Seq<char>| #[trigger] self.nft_to_shares_address@.contains_key(k) ==> exists|c: Seq<char>, t: Seq<char>|
            valid_account_id(c) && k == nft_address_of(c, t) && self.nft_to_shares_address@[k] == shares_name_of(
                c,
                t,
                registry,
            )
        &&& forall|c: Seq<char>| #[trigger] self.contract_to_wrapper@.contains_key(c) ==> self.contract_to_wrapper@[c]
            == wrapper_name_of(c, registry)
    }

    /// The wrapper that `ensure_wrapper` answers for `asset`: the recorded
    /// one, else the name derived under `registry`.
    pub open spec fn wrapper_of(&self, asset: Seq<char>, registry: Seq<char>) -> Seq<char> {
        if self.contract_to_wrapper@.contains_key(asset) {
            self.contract_to_wrapper@[asset]
        } else {
            wrapper_name_of(asset, registry)
        }
    }

    /// Why `ensure_wrapper(asset)` is refused, if it is.
    pub open spec fn wrap_error(&self, asset: Seq<char>, registry: Seq<char>) -> Option<RegistryError> {
        if self.is_wrapper(asset) {
            Some(RegistryError::CannotWrapWrapper)
        } else if !self.contract_to_wrapper@.contains_key(asset) && self.is_wrapper(
            wrapper_name_of(asset, registry),
        ) {
            Some(RegistryError::NameTaken)
        } else {
            None
        }
    }

    /// Why `securitize` is refused, if it is.
    pub open spec fn securitize_error(
        &self,
        contract: Seq<char>,
        token_id: Seq<char>,
        shares_count: u128,
        exit_price: u128,
        signer: Seq<char>,
        registry: Seq<char>,
    ) -> Option<RegistryError> {
        let shares = shares_name_of(contract, token_id, registry);
        let nft = nft_address_of(contract, token_id);
        if exit_price == 0 {
            Some(RegistryError::InvalidExitPrice)
        } else if shares_count == 0 {
            Some(RegistryError::InvalidSharesCount)
        } else if exit_price % shares_count != 0 {
            Some(RegistryError::FractionalSharePrice)
        } else if self.is_wrapper(contract) {
            Some(RegistryError::CannotWrapWrapper)
        } else if !(valid_account_id(signer) && valid_account_id(contract) && valid_account_id(shares)) {
            Some(RegistryError::InvalidAccountId)
        } else if (self.nft_to_shares_address@.contains_key(nft) && self.nft_to_shares_address@[nft] != shares)
            || (self.shares_to_nft_address@.contains_key(shares) && self.shares_to_nft_address@[shares] != nft) {
            Some(RegistryError::NameTaken)
        } else {
            self.wrap_error(contract, registry)
        }
    }

    /// `post` holds the wrapper records that a successful
    /// `ensure_wrapper(asset)` leaves of `self`: none change for a contract
    /// that has its wrapper, else the derived wrapper is added to both.
    pub open spec fn wrappers_after(&self, post: &Fractose, asset: Seq<char>, registry: Seq<char>) -> bool {
        let w = self.wrapper_of(asset, registry);
        if self.contract_to_wrapper@.contains_key(asset) {
            &&& post.contract_to_wrapper@ == self.contract_to_wrapper@
            &&& post.wrapper_to_contract@ == self.wrapper_to_contract@
        } else {
            &&& post.contract_to_wrapper@ == self.contract_to_wrapper@.insert(asset, w)
            &&& post.wrapper_to_contract@ == self.wrapper_to_contract@.insert(w, asset)
        }
    }

    /// `post` is what a successful `ensure_wrapper(asset)` leaves of `self`.
    pub open spec fn wrapped(&self, post: &Fractose, asset: Seq<char>, registry: Seq<char>) -> bool {
        &&& self.wrappers_after(post, asset, registry)
        &&& post.nft_to_shares_address@ == self.nft_to_shares_address@
        &&& post.shares_to_nft_address@ == self.shares_to_nft_address@
        &&& post.shares_funding == self.shares_funding
        &&& post.wrapper_funding == self.wrapper_funding
    }

    /// A registry with no records, funding each spawned share ledger with
    /// `shares_funding` and each wrapper with `wrapper_funding`.
    pub fn new(shares_funding: u128, wrapper_funding: u128) -> (r: Fractose)
        ensures
            r.nft_to_shares_address@ == Map::<Seq<char>, Seq<char>>::empty(),
            r.shares_to_nft_address@ == Map::<Seq<char>, Seq<char>>::empty(),
            r.contract_to_wrapper@ == Map::<Seq<char>, Seq<char>>::empty(),
            r.wrapper_to_contract@ == Map::<Seq<char>, Seq<char>>::empty(),
            r.shares_funding == shares_funding,
            r.wrapper_funding == wrapper_funding,
            r.records_consistent(),
            forall|registry: Seq<char>| #[trigger] r.derived_under(registry),
    {
        Fractose {
            nft_to_shares_address: StringMap::new(),
            shares_to_nft_address: StringMap::new(),
            contract_to_wrapper: StringMap::new(),
            wrapper_to_contract: StringMap::new(),
            shares_funding,
            wrapper_funding,
        }
    }

    /// The wrapper of `asset_contract`, spawned as a sub-account of
    /// `registry_id` if it does not exist yet. A wrapper cannot be wrapped,
    /// and a derived name that is already a wrapper is not reused.
    pub fn ensure_wrapper(&mut self, asset_contract: &String, registry_id: &String) -> (r: Result<(String, Vec<Action>), RegistryError>)
        ensures
            old(self).wrap_error(asset_contract@, registry_id@) matches Some(e) ==> r == Err::<
                (String, Vec<Action>),
                RegistryError,
            >(e),
            r is Ok <==> old(self).wrap_error(asset_contract@, registry_id@) is None,
            r is Err ==> *final(self) == *old(self),
            old(self).wrapper_to_contract@.dom().subset_of(final(self).wrapper_to_contract@.dom()),
            old(self).records_consistent() ==> final(self).records_consistent(),
            old(self).derived_under(registry_id@) ==> final(self).derived_under(registry_id@),
            r matches Ok((w, actions)) ==> {
                let existed = old(self).contract_to_wrapper@.contains_key(asset_contract@);
                &&& w@ == old(self).wrapper_of(asset_contract@, registry_id@)
                &&& actions@ == wrapper_actions(existed, w, old(self).wrapper_funding)
                &&& old(self).wrapped(final(self), asset_contract@, registry_id@)
            },
    {
        if self.wrapper_to_contract.contains_key(asset_contract) {
            return Err(RegistryError::CannotWrapWrapper);
        }
        let mut actions = Vec::new();
        match self.contract_to_wrapper.get(asset_contract) {
            Some(w) => {
                proof {
                    assert(actions@ =~= seq![]);
                }
                Ok((w, actions))
            },
            None => {
                let w = get_wrapper_name(asset_contract, registry_id);
                if self.wrapper_to_contract.contains_key(&w) {
                    return Err(RegistryError::NameTaken);
                }
                proof {
                    if old(self).records_consistent() {
                        lemma_inverse_insert(
                            old(self).contract_to_wrapper@,
                            old(self).wrapper_to_contract@,
                            asset_contract@,
                            w@,
                        );
                    }
                }
                self.contract_to_wrapper.insert(asset_contract, &w);
                self.wrapper_to_contract.insert(&w, asset_contract);
                actions.push(Action::Spawn { account_id: w.clone(), deposit: self.wrapper_funding, code: Code::Wrapper });
                Ok((w, actions))
            },
        }
    }

    /// Securitizes token `nft_token_id` of `nft_contract_address` into
    /// `shares_count` shares owned by `signer_id`, redeemable for
    /// `exit_price` in all. The wrapper of the contract is ensured, the share
    /// ledger is spawned as a sub-account of `registry_id` and initialized,
    /// the asset is recorded, and the token is asked to move to the ledger.
    pub fn securitize(
        &mut self,
        nft_contract_address: String,
        nft_token_id: String,
        shares_count: u128,
        decimals: u8,
        exit_price: u128,
        signer_id: &String,
        registry_id: &String,
    ) -> (r: Result<Vec<Action>, RegistryError>)
        ensures
            old(self).securitize_error(
                nft_contract_address@,
                nft_token_id@,
                shares_count,
                exit_price,
                signer_id@,
                registry_id@,
            ) matches Some(e) ==> r == Err::<Vec<Action>, RegistryError>(e),
            r is Ok <==> old(self).securitize_error(
                nft_contract_address@,
                nft_token_id@,
                shares_count,
                exit_price,
                signer_id@,
                registry_id@,
            ) is None,
            r is Err ==> *final(self) == *old(self),
            old(self).wrapper_to_contract@.dom().subset_of(final(self).wrapper_to_contract@.dom()),
            old(self).records_consistent() ==> final(self).records_consistent(),
            old(self).derived_under(registry_id@) ==> final(self).derived_under(registry_id@),
            r matches Ok(actions) ==> {
                let shares = shares_name_of(nft_contract_address@, nft_token_id@, registry_id@);
                let nft = nft_address_of(nft_contract_address@, nft_token_id@);
                let existed = old(self).contract_to_wrapper@.contains_key(nft_contract_address@);
                let n = actions@.len();
                &&& final(self).nft_to_shares_address@ == old(self).nft_to_shares_address@.insert(nft, shares)
                &&& final(self).shares_to_nft_address@ == old(self).shares_to_nft_address@.insert(shares, nft)
                &&& old(self).wrappers_after(final(self), nft_contract_address@, registry_id@)
                &&& final(self).shares_funding == old(self).shares_funding
                &&& final(self).wrapper_funding == old(self).wrapper_funding
                &&& n == if existed { 3nat } else { 4nat }
                &&& !existed ==> (actions@[0] matches Action::Spawn { account_id, deposit, code }
                    && account_id@ == old(self).wrapper_of(nft_contract_address@, registry_id@)
                    && deposit == old(self).wrapper_funding && code == Code::Wrapper)
                &&& actions@[n - 3] matches Action::Spawn { account_id, deposit, code }
                    && account_id@ == shares && deposit == old(self).shares_funding && code == Code::Shares
                &&& actions@[n - 2] matches Action::InitShares {
                    shares_contract,
                    nft_contract_address: c,
                    nft_token_id: t,
                    owner_id,
                    shares_count: k,
                    decimals: d,
                    share_price,
                } && shares_contract@ == shares && c == nft_contract_address && t == nft_token_id
                    && owner_id == *signer_id && k == shares_count && d == decimals
                    && share_price == exit_price / shares_count && k * share_price == exit_price
                &&& actions@[n - 1] matches Action::NftTransfer { nft_contract_address: c, receiver_id, token_id }
                    && c == nft_contract_address && receiver_id@ == shares && token_id == nft_token_id
            },
    {
        if exit_price == 0 {
            return Err(RegistryError::InvalidExitPrice);
        }
        if shares_count == 0 {
            return Err(RegistryError::InvalidSharesCount);
        }
        if exit_price % shares_count != 0 {
            return Err(RegistryError::FractionalSharePrice);
        }
        if self.wrapper_to_contract.contains_key(&nft_contract_address) {
            return Err(RegistryError::CannotWrapWrapper);
        }
        let share_price = exit_price / shares_count;
        assert(shares_count * share_price == exit_price) by (nonlinear_arith)
            requires
                shares_count > 0,
                exit_price % shares_count == 0,
                share_price == exit_price / shares_count,
        ;
        let shares_contract = get_shares_contract_name(
            nft_contract_address.clone(),
            nft_token_id.clone(),
            registry_id.clone(),
        );
        if !is_valid_account_id(signer_id) || !is_valid_account_id(&nft_contract_address) || !is_valid_account_id(
            &shares_contract,
        ) {
            return Err(RegistryError::InvalidAccountId);
        }
        let nft_address = get_nft_address(nft_contract_address.clone(), nft_token_id.clone());
        match self.nft_to_shares_address.get(&nft_address) {
            Some(l) => {
                if l != shares_contract {
                    return Err(RegistryError::NameTaken);
                }
            },
            None => {},
        }
        match self.shares_to_nft_address.get(&shares_contract) {
            Some(k) => {
                if k != nft_address {
                    return Err(RegistryError::NameTaken);
                }
            },
            None => {},
        }
        let mut actions = match self.ensure_wrapper(&nft_contract_address, registry_id) {
            Ok((_, a)) => a,
            Err(e) => return Err(e),
        };
        proof {
            if old(self).records_consistent() {
                lemma_inverse_insert(
                    old(self).nft_to_shares_address@,
                    old(self).shares_to_nft_address@,
                    nft_address@,
                    shares_contract@,
                );
            }
        }
        actions.push(Action::Spawn { account_id: shares_contract.clone(), deposit: self.shares_funding, code: Code::Shares });
        actions.push(
            Action::InitShares {
                shares_contract: shares_contract.clone(),
                nft_contract_address: nft_contract_address.clone(),
                nft_token_id: nft_token_id.clone(),
                owner_id: signer_id.clone(),
                shares_count,
                decimals,
                share_price,
            },
        );
        self.nft_to_shares_address.insert(&nft_address, &shares_contract);
        self.shares_to_nft_address.insert(&shares_contract, &nft_address);
        actions.push(
            Action::NftTransfer { nft_contract_address, receiver_id: shares_contract, token_id: nft_token_id },
        );
        Ok(actions)
    }
}

/// A wrapper stays a wrapper: along any run of registry states in which the
/// wrapper set never shrinks (as `ensure_wrapper` and `securitize` both
/// guarantee, refused or not), an identity that was once a wrapper remains
/// one, so every later attempt to wrap it is refused, however many there are.
pub proof fn lemma_wrapper_refused_forever(states: Seq<Fractose>, w: Seq<char>, registry: Seq<char>)
    requires
        states.len() > 0,
        states[0].is_wrapper(w),
        forall|i: int|
            0 <= i < states.len() - 1 ==> (#[trigger] states[i]).wrapper_to_contract@.dom().subset_of(
                states[i + 1].wrapper_to_contract@.dom(),
            ),
    ensures
        forall|i: int|
            0 <= i < states.len() ==> (#[trigger] states[i]).is_wrapper(w) && states[i].wrap_error(w, registry)
                == Some(RegistryError::CannotWrapWrapper),
    decreases states.len(),
{
    if states.len() > 1 {
        let d = states.drop_last();
        assert forall|i: int| 0 <= i < d.len() - 1 implies (#[trigger] d[i]).wrapper_to_contract@.dom().subset_of(
            d[i + 1].wrapper_to_contract@.dom(),
        ) by {
            assert(d[i] == states[i]);
            assert(d[i + 1] == states[i + 1]);
        }
        lemma_wrapper_refused_forever(d, w, registry);
        let n = states.len() - 1;
        assert(d[n - 1] == states[n - 1]);
        assert(states[n - 1].is_wrapper(w));
        assert(states[n - 1].wrapper_to_contract@.dom().subset_of(states[n].wrapper_to_contract@.dom()));
        assert forall|i: int| 0 <= i < states.len() implies (#[trigger] states[i]).is_wrapper(w) && states[i].wrap_error(
            w,
            registry,
        ) == Some(RegistryError::CannotWrapWrapper) by {
            if i < n {
                assert(d[i] == states[i]);
            }
        }
    }
}

/// Wrapping an asset contract twice gives the same wrapper: after a
/// successful `ensure_wrapper(asset)`, the asset is still no wrapper, its
/// wrapper is recorded (so a second call spawns nothing and is not refused),
/// and a second call answers the same identity.
pub proof fn lemma_wrap_lookup_idempotent(pre: &Fractose, post: &Fractose, asset: Seq<char>, registry: Seq<char>)
    requires
        pre.wrap_error(asset, registry) is None,
        pre.wrapped(post, asset, registry),
    ensures
        !post.is_wrapper(asset),
        post.contract_to_wrapper@.contains_key(asset),
        post.wrap_error(asset, registry) is None,
        post.wrapper_of(asset, registry) == pre.wrapper_of(asset, registry),
{
    if !pre.contract_to_wrapper@.contains_key(asset) {
        lemma_encode_len(asset);
        assert(wrapper_name_of(asset, registry) != asset);
    }
}

/// On a registry whose records were all derived under `registry`,
/// securitizing an asset of a valid contract that is no wrapper, for a
/// valid caller and a valid ledger name, succeeds exactly when the exit
/// price is a multiple of the shares count: derived names never collide.
pub proof fn lemma_securitize_succeeds_iff_divisible(
    f: &Fractose,
    contract: Seq<char>,
    token_id: Seq<char>,
    shares_count: u128,
    exit_price: u128,
    signer: Seq<char>,
    registry: Seq<char>,
)
    requires
        f.derived_under(registry),
        shares_count > 0,
        exit_price > 0,
        !f.is_wrapper(contract),
        valid_account_id(signer),
        valid_account_id(contract),
        valid_account_id(shares_name_of(contract, token_id, registry)),
    ensures
        f.securitize_error(contract, token_id, shares_count, exit_price, signer, registry) is None
            <==> exit_price % shares_count == 0,
{
    let a = f.nft_to_shares_address@;
    let b = f.shares_to_nft_address@;
    let shares = shares_name_of(contract, token_id, registry);
    let nft = nft_address_of(contract, token_id);
    lemma_valid_has_no_slash(contract);
    if a.contains_key(nft) {
        let (c, t) = choose|c: Seq<char>, t: Seq<char>|
            valid_account_id(c) && nft == nft_address_of(c, t) && a[nft] == shares_name_of(c, t, registry);
        lemma_valid_has_no_slash(c);
        lemma_nft_addresses_injective(contract, token_id, c, t);
    }
    if b.contains_key(shares) {
        let k = b[shares];
        assert(a.contains_key(k) && a[k] == shares);
        let (c, t) = choose|c: Seq<char>, t: Seq<char>|
            valid_account_id(c) && k == nft_address_of(c, t) && a[k] == shares_name_of(c, t, registry);
        lemma_shares_names_injective(contract, token_id, c, t, registry);
    }
    let w = wrapper_name_of(contract, registry);
    if !f.contract_to_wrapper@.contains_key(contract) && f.is_wrapper(w) {
        let c = f.wrapper_to_contract@[w];
        assert(f.contract_to_wrapper@.contains_key(c));
        lemma_wrapper_names_injective(contract, c, registry);
    }
}

} // verus!

//! The share ledger of one securitized token: issue on creation, transfer,
//! redemption by shares or by payment, claims of the remaining holders, and
//! the cleanup that deletes the actor once no share is left.
use vstd::prelude::*;
use vstd::string::StringExecFns;
use crate::actions::Action;
use crate::ledger::{Ledger, LedgerError, sum_balances};
use crate::metadata::{SharesMetadata, SharesMetadataProvider, SHARES_FT_METADATA_SPEC};

verus! {

/// The icon of every share token.
pub const DATA_IMAGE_SVG_NEAR_ICON: &'static str = "data:image/svg+xml,%3Csvg xmlns='http://www.w3.org/2000/svg' viewBox='0 0 288 288'%3E%3Cg id='l' data-name='l'%3E%3Cpath d='M187.58,79.81l-30.1,44.69a3.2,3.2,0,0,0,4.75,4.2L191.86,103a1.2,1.2,0,0,1,2,.91v80.46a1.2,1.2,0,0,1-2.12.77L102.18,77.93A15.35,15.35,0,0,0,90.47,72.5H87.34A15.34,15.34,0,0,0,72,87.84V201.16A15.34,15.34,0,0,0,87.34,216.5h0a15.35,15.35,0,0,0,13.08-7.31l30.1-44.69a3.2,3.2,0,0,0-4.75-4.2L96.14,186a1.2,1.2,0,0,1-2-.91V104.61a1.2,1.2,0,0,1,2.12-.77l89.55,107.23a15.35,15.35,0,0,0,11.71,5.43h3.13A15.34,15.34,0,0,0,216,201.16V87.84A15.34,15.34,0,0,0,200.66,72.5h0A15.35,15.35,0,0,0,187.58,79.81Z'/%3E%3C/g%3E%3C/svg%3E";

/// Why a call on a share ledger was refused.
#[derive(Debug, Clone, Copy, PartialEq, Eq, Structural)]
pub enum SharesError {
    /// The token was already redeemed.
    AlreadyRedeemed,
    /// The attached payment is below the required top-up.
    InsufficientPayment,
    /// The token has not been redeemed yet, so there is nothing to claim.
    NotRedeemed,
    /// The caller holds no shares.
    NothingToClaim,
    /// The caller's shares are worth nothing.
    AlreadyClaimed,
}

/// What `cleanup` issues: the deletion of the actor, with what it holds
/// going to `signer`, once no share is left.
pub open spec fn cleanup_actions(supply: nat, signer: String) -> Seq<Action> {
    if supply == 0 {
        seq![Action::DeleteAccount { beneficiary_id: signer }]
    } else {
        seq![]
    }
}

proof fn lemma_mul_le(a: nat, b: nat, p: nat)
    requires
        a <= b,
    ensures
        a * p <= b * p,
{
    assert(a * p <= b * p) by (nonlinear_arith)
        requires
            a <= b,
    ;
}

/// The economic state of one securitized token.
pub struct Shares {
    token: Ledger,
    metadata: SharesMetadata,
}

impl SharesMetadataProvider for Shares {
    closed spec fn metadata_spec(&self) -> SharesMetadata {
        self.metadata
    }

    fn ft_metadata(&self) -> (r: SharesMetadata) {
        self.metadata.copy()
    }
}

impl Shares {
    /// The balance table.
    pub closed spec fn ledger(&self) -> Ledger {
        self.token
    }

    /// The number of shares in existence.
    pub open spec fn supply(&self) -> nat {
        self.ledger().supply()
    }

    /// The shares held by `id`.
    pub open spec fn balance(&self, id: Seq<char>) -> nat {
        self.ledger().balance(id)
    }

    /// `id` has registered with the ledger.
    pub open spec fn registered(&self, id: Seq<char>) -> bool {
        self.ledger().registered(id)
    }

    /// Settlement currency per share.
    pub open spec fn share_price(&self) -> nat {
        self.metadata_spec().share_price as nat
    }

    /// The token has been redeemed by payment.
    pub open spec fn released(&self) -> bool {
        self.metadata_spec().released
    }

    /// The exit price: the supply at the share price.
    pub open spec fn exit_price_spec(&self) -> nat {
        self.supply() * self.share_price()
    }

    /// What a holder of `id`'s shares still has to pay to take the token.
    pub open spec fn redeem_amount_spec(&self, id: Seq<char>) -> int {
        self.exit_price_spec() - self.balance(id) * self.share_price()
    }

    /// What is left in the vault for the holders: nothing before release.
    pub open spec fn vault_spec(&self) -> nat {
        if self.released() {
            self.exit_price_spec()
        } else {
            0
        }
    }

    /// What `id` may claim from the vault: nothing before release.
    pub open spec fn vault_of_spec(&self, id: Seq<char>) -> nat {
        if self.released() {
            self.balance(id) * self.share_price()
        } else {
            0
        }
    }

    /// The table is well formed, the metadata valid, and the exit price fits.
    pub open spec fn wf(&self) -> bool {
        &&& self.ledger().wf()
        &&& self.metadata_spec().is_valid()
        &&& self.exit_price_spec() <= u128::MAX
    }

    /// `self` and `o` differ at most in the holders' balances, registrations
    /// and the supply.
    pub open spec fn same_terms(&self, o: &Shares) -> bool {
        &&& self.share_price() == o.share_price()
        &&& self.metadata_spec().nft_contract_address@ == o.metadata_spec().nft_contract_address@
        &&& self.metadata_spec().nft_token_id@ == o.metadata_spec().nft_token_id@
        &&& self.metadata_spec().decimals == o.metadata_spec().decimals
    }

    /// Why `redeem` by `id` with `attached` is refused, if it is.
    pub open spec fn redeem_error(&self, id: Seq<char>, attached: u128) -> Option<SharesError> {
        if self.released() {
            Some(SharesError::AlreadyRedeemed)
        } else if attached < self.redeem_amount_spec(id) {
            Some(SharesError::InsufficientPayment)
        } else {
            None
        }
    }

    /// Why `claim` by `id` is refused, if it is.
    pub open spec fn claim_error(&self, id: Seq<char>) -> Option<SharesError> {
        if !self.released() {
            Some(SharesError::NotRedeemed)
        } else if self.balance(id) == 0 {
            Some(SharesError::NothingToClaim)
        } else if self.share_price() == 0 {
            Some(SharesError::AlreadyClaimed)
        } else {
            None
        }
    }

    /// `post` is `self` with all of `id`'s shares burned.
    pub open spec fn burned(&self, post: &Shares, id: Seq<char>) -> bool {
        &&& post.same_terms(self)
        &&& post.balance(id) == 0
        &&& post.supply() == self.supply() - self.balance(id)
        &&& forall|x: Seq<char>| x != id ==> #[trigger] post.balance(x) == self.balance(x)
        &&& forall|x: Seq<char>| #[trigger] post.registered(x) == (self.registered(x) || x == id)
    }

    proof fn lemma_bounds(&self, id: Seq<char>)
        requires
            self.wf(),
        ensures
            self.balance(id) <= self.supply(),
            self.balance(id) * self.share_price() <= self.exit_price_spec(),
    {
        self.token.lemma_balances_bounded(id, id);
        lemma_mul_le(self.balance(id), self.supply(), self.share_price());
    }

    /// Issues `shares_count` shares of the token `nft_token_id` of contract
    /// `nft_contract_address`, all held by `owner_id`, at `share_price` each.
    pub fn create(
        nft_contract_address: String,
        nft_token_id: String,
        owner_id: String,
        shares_count: u128,
        decimals: u8,
        share_price: u128,
    ) -> (r: Shares)
        requires
            shares_count * share_price <= u128::MAX,
        ensures
            r.wf(),
            !r.released(),
            r.share_price() == share_price,
            r.metadata_spec().decimals == decimals,
            r.metadata_spec().nft_contract_address@ == nft_contract_address@,
            r.metadata_spec().nft_token_id@ == nft_token_id@,
            r.metadata_spec().spec@ == SHARES_FT_METADATA_SPEC@,
            r.metadata_spec().name@ == "Example NEAR fungible token"@,
            r.metadata_spec().symbol@ == "EXAMPLE"@,
            r.metadata_spec().icon matches Some(i) && i@ == DATA_IMAGE_SVG_NEAR_ICON@,
            r.metadata_spec().reference is None,
            r.metadata_spec().reference_hash is None,
            r.supply() == shares_count,
            sum_balances(r.ledger()@) == shares_count,
            r.balance(owner_id@) == shares_count,
            forall|x: Seq<char>| x != owner_id@ ==> #[trigger] r.balance(x) == 0,
            forall|x: Seq<char>| #[trigger] r.registered(x) == (x == owner_id@),
    {
        let metadata = SharesMetadata {
            spec: String::from_str(SHARES_FT_METADATA_SPEC),
            name: String::from_str("Example NEAR fungible token"),
            symbol: String::from_str("EXAMPLE"),
            icon: Some(String::from_str(DATA_IMAGE_SVG_NEAR_ICON)),
            reference: None,
            reference_hash: None,
            decimals,
            nft_contract_address,
            nft_token_id,
            share_price,
            released: false,
        };
        let mut token = Ledger::new();
        token.storage_deposit(&owner_id);
        token.deposit(&owner_id, shares_count);
        Shares { token, metadata }
    }

    /// The exit price: the supply at the share price.
    pub fn exit_price(&self) -> (r: u128)
        requires
            self.wf(),
        ensures
            r == self.exit_price_spec(),
    {
        self.token.ft_total_supply() * self.metadata.share_price
    }

    /// The top-up in settlement currency that `from` has to pay, beside the
    /// shares it holds, to redeem the token.
    pub fn redeem_amount_of(&self, from: &String) -> (r: Result<u128, SharesError>)
        requires
            self.wf(),
        ensures
            self.released() ==> r == Err::<u128, SharesError>(SharesError::AlreadyRedeemed),
            !self.released() ==> r == Ok::<u128, SharesError>(self.redeem_amount_spec(from@) as u128),
            self.redeem_amount_spec(from@) >= 0,
    {
        proof {
            self.lemma_bounds(from@);
        }
        if self.metadata.released {
            return Err(SharesError::AlreadyRedeemed);
        }
        let held = self.token.ft_balance_of(from);
        Ok(self.exit_price() - held * self.metadata.share_price)
    }

    /// The settlement currency held for the remaining holders.
    pub fn vault_balance(&self) -> (r: u128)
        requires
            self.wf(),
        ensures
            r == self.vault_spec(),
    {
        if !self.metadata.released {
            0
        } else {
            self.exit_price()
        }
    }

    /// The settlement currency that `from` may claim.
    pub fn vault_balance_of(&self, from: &String) -> (r: u128)
        requires
            self.wf(),
        ensures
            r == self.vault_of_spec(from@),
    {
        proof {
            self.lemma_bounds(from@);
        }
        if !self.metadata.released {
            0
        } else {
            self.token.ft_balance_of(from) * self.metadata.share_price
        }
    }

    /// The number of shares in existence.
    pub fn ft_total_supply(&self) -> (r: u128)
        ensures
            r == self.supply(),
    {
        self.token.ft_total_supply()
    }

    /// The shares held by `id`.
    pub fn ft_balance_of(&self, id: &String) -> (r: u128)
        requires
            self.wf(),
        ensures
            r == self.balance(id@),
    {
        self.token.ft_balance_of(id)
    }

    /// Whether `account_id` has registered with the ledger.
    pub fn is_registered(&self, account_id: &String) -> (r: bool)
        requires
            self.wf(),
        ensures
            r == self.registered(account_id@),
    {
        self.token.is_registered(account_id)
    }

    /// Registers `account_id` so that it can receive shares.
    pub fn storage_deposit(&mut self, account_id: &String) -> (r: bool)
        requires
            old(self).wf(),
        ensures
            final(self).wf(),
            r == !old(self).registered(account_id@),
            final(self).same_terms(old(self)),
            final(self).released() == old(self).released(),
            final(self).supply() == old(self).supply(),
            forall|x: Seq<char>| #[trigger] final(self).balance(x) == old(self).balance(x),
            forall|x: Seq<char>| #[trigger] final(self).registered(x) == (old(self).registered(x) || x == account_id@),
            final(self).metadata_spec() == old(self).metadata_spec(),
    {
        self.token.storage_deposit(account_id)
    }

    /// Moves `amount` shares from `sender_id` to `receiver_id`.
    pub fn ft_transfer(&mut self, sender_id: &String, receiver_id: &String, amount: u128) -> (r: Result<(), LedgerError>)
        requires
            old(self).wf(),
        ensures
            final(self).wf(),
            r == old(self).ledger().transfer_outcome(sender_id@, receiver_id@, amount),
            final(self).same_terms(old(self)),
            final(self).released() == old(self).released(),
            final(self).supply() == old(self).supply(),
            r is Err ==> *final(self) == *old(self),
            r is Ok ==> {
                &&& final(self).balance(sender_id@) == old(self).balance(sender_id@) - amount
                &&& final(self).balance(receiver_id@) == old(self).balance(receiver_id@) + amount
                &&& forall|x: Seq<char>| x != sender_id@ && x != receiver_id@
                    ==> #[trigger] final(self).balance(x) == old(self).balance(x)
                &&& forall|x: Seq<char>| #[trigger] final(self).registered(x) == old(self).registered(x)
            },
            final(self).metadata_spec() == old(self).metadata_spec(),
    {
        self.token.ft_transfer(sender_id, receiver_id, amount)
    }

    /// Deletes the actor once no share is left, sending what it holds to
    /// `signer_id`; issues nothing otherwise.
    pub fn cleanup(&self, signer_id: &String) -> (r: Vec<Action>)
        ensures
            r@ == cleanup_actions(self.supply(), *signer_id),
    {
        let mut r = Vec::new();
        if self.token.ft_total_supply() == 0 {
            r.push(Action::DeleteAccount { beneficiary_id: signer_id.clone() });
        }
        proof {
            if self.supply() != 0 {
                assert(r@ =~= seq![]);
            }
        }
        r
    }

    /// `signer_id` redeems the token with its shares and `attached`
    /// settlement currency: the change is refunded, the token released, the
    /// signer's shares burned and the token sent to the signer.
    pub fn redeem(&mut self, signer_id: &String, attached: u128) -> (r: Result<Vec<Action>, SharesError>)
        requires
            old(self).wf(),
        ensures
            final(self).wf(),
            final(self).same_terms(old(self)),
            old(self).released() ==> r == Err::<Vec<Action>, SharesError>(SharesError::AlreadyRedeemed),
            !old(self).released() && attached < old(self).redeem_amount_spec(signer_id@)
                ==> r == Err::<Vec<Action>, SharesError>(SharesError::InsufficientPayment),
            r is Err ==> *final(self) == *old(self),
            r is Ok <==> !old(self).released() && attached >= old(self).redeem_amount_spec(signer_id@),
            old(self).redeem_error(signer_id@, attached) matches Some(e) ==> r == Err::<Vec<Action>, SharesError>(e),
            r matches Ok(actions) ==> {
                &&& final(self).released()
                &&& final(self).metadata_spec().same_as(SharesMetadata { released: true, ..old(self).metadata_spec() })
                &&& old(self).burned(final(self), signer_id@)
                &&& actions@ == seq![
                    Action::Transfer {
                        receiver_id: *signer_id,
                        amount: (attached - old(self).redeem_amount_spec(signer_id@)) as u128,
                    },
                    Action::NftTransfer {
                        nft_contract_address: old(self).metadata_spec().nft_contract_address,
                        receiver_id: *signer_id,
                        token_id: old(self).metadata_spec().nft_token_id,
                    },
                ] + cleanup_actions(final(self).supply(), *signer_id)
            },
    {
        let required = match self.redeem_amount_of(signer_id) {
            Ok(a) => a,
            Err(e) => return Err(e),
        };
        if attached < required {
            return Err(SharesError::InsufficientPayment);
        }
        proof {
            self.lemma_bounds(signer_id@);
        }
        let nft_contract_address = self.metadata.nft_contract_address.clone();
        let token_id = self.metadata.nft_token_id.clone();
        let mut actions = Vec::new();
        actions.push(Action::Transfer { receiver_id: signer_id.clone(), amount: attached - required });
        self.metadata.set_as_released();
        self.token.burn_all(signer_id);
        proof {
            lemma_mul_le(self.token.supply(), old(self).supply(), self.share_price());
        }
        actions.push(
            Action::NftTransfer { nft_contract_address, receiver_id: signer_id.clone(), token_id },
        );
        let ghost first = actions@;
        let mut rest = self.cleanup(signer_id);
        actions.append(&mut rest);
        assert(actions@ == first + cleanup_actions(self.supply(), *signer_id));
        Ok(actions)
    }

    /// After release, `signer_id` exchanges all its shares for their worth
    /// from the vault; cleanup runs once the payment is accepted.
    pub fn claim(&mut self, signer_id: &String) -> (r: Result<Vec<Action>, SharesError>)
        requires
            old(self).wf(),
        ensures
            final(self).wf(),
            final(self).same_terms(old(self)),
            final(self).released() == old(self).released(),
            !old(self).released() ==> r == Err::<Vec<Action>, SharesError>(SharesError::NotRedeemed),
            old(self).released() && old(self).balance(signer_id@) == 0
                ==> r == Err::<Vec<Action>, SharesError>(SharesError::NothingToClaim),
            old(self).released() && old(self).balance(signer_id@) > 0 && old(self).share_price() == 0
                ==> r == Err::<Vec<Action>, SharesError>(SharesError::AlreadyClaimed),
            r is Err ==> *final(self) == *old(self),
            r is Ok <==> old(self).released() && old(self).balance(signer_id@) > 0 && old(self).share_price() > 0,
            old(self).claim_error(signer_id@) matches Some(e) ==> r == Err::<Vec<Action>, SharesError>(e),
            r matches Ok(actions) ==> {
                &&& final(self).metadata_spec() == old(self).metadata_spec()
                &&& old(self).burned(final(self), signer_id@)
                &&& actions@ == seq![
                    Action::TransferThenCleanup {
                        receiver_id: *signer_id,
                        amount: old(self).vault_of_spec(signer_id@) as u128,
                    },
                ]
            },
    {
        if !self.metadata.released {
            return Err(SharesError::NotRedeemed);
        }
        let held = self.token.ft_balance_of(signer_id);
        if held == 0 {
            return Err(SharesError::NothingToClaim);
        }
        let amount = self.vault_balance_of(signer_id);
        let ghost p = self.share_price();
        assert(amount == held * p);
        if amount == 0 {
            assert(p == 0) by (nonlinear_arith)
                requires
                    held > 0,
                    amount == 0,
                    amount == held * p,
            ;
            return Err(SharesError::AlreadyClaimed);
        }
        assert(p > 0) by (nonlinear_arith)
            requires
                amount > 0,
                amount == held * p,
        ;
        self.token.burn_all(signer_id);
        proof {
            lemma_mul_le(self.token.supply(), old(self).supply(), self.share_price());
        }
        let mut actions = Vec::new();
        actions.push(Action::TransferThenCleanup { receiver_id: signer_id.clone(), amount });
        Ok(actions)
    }
}

/// Every holder's shares together are the supply: the balance table sums to
/// the supply in every well-formed state, and every call above keeps the
/// state well formed.
pub proof fn lemma_supply_conservation(s: &Shares)
    requires
        s.wf(),
    ensures
        sum_balances(s.ledger()@) == s.supply(),
{
}

/// A redemption by a holder who pays exactly the required top-up releases
/// the token, burns the redeemer's shares, leaves every other holder's
/// shares as they were and makes them worth their share price in the vault.
pub proof fn lemma_partial_redeem(pre: &Shares, post: &Shares, a: Seq<char>, b: Seq<char>)
    requires
        pre.wf(),
        a != b,
        pre.redeem_error(b, pre.redeem_amount_spec(b) as u128) is None,
        post.released(),
        pre.burned(post, b),
    ensures
        post.released(),
        post.balance(b) == 0,
        post.balance(a) == pre.balance(a),
        post.vault_of_spec(a) == pre.balance(a) * pre.share_price(),
        post.supply() == pre.supply() - pre.balance(b),
{
}

/// After a claim, the claimant holds nothing, the supply has shrunk by what
/// it held, and a second claim by it is refused for want of shares.
pub proof fn lemma_claim_after_redeem(pre: &Shares, post: &Shares, a: Seq<char>)
    requires
        pre.claim_error(a) is None,
        pre.burned(post, a),
        post.released() == pre.released(),
    ensures
        post.balance(a) == 0,
        post.supply() == pre.supply() - pre.balance(a),
        post.claim_error(a) == Some(SharesError::NothingToClaim),
{
}

/// When the last shares are burned, the supply reaches zero and cleanup
/// deletes the ledger, handing what it holds to the caller.
pub proof fn lemma_cleanup_when_last_shares_burn(pre: &Shares, post: &Shares, id: Seq<char>, signer: String)
    requires
        pre.balance(id) == pre.supply(),
        pre.burned(post, id),
    ensures
        post.supply() == 0,
        cleanup_actions(post.supply(), signer) == seq![Action::DeleteAccount { beneficiary_id: signer }],
{
}

} // verus!

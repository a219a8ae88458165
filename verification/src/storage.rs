//! The account ledger: the registry of residents, the payment log, and the
//! chain in which the payments are anchored.
use crate::auth::{AuthenticatedUser, Claims, SESSION_SECONDS, session_end};
use crate::blockchain::{next_block, is_intact, Blockchain, PaymentTx, PaymentTxView};
use crate::clock::{utc_now, Timestamp};
use crate::error::LedgerError;
use crate::model::{Payment, Resident};
use crate::signature::{
    decode_signing_key, ed25519_public_key, generate_signing_key, is_signed_by,
    payment_signature, public_key_of, sign_payment, signing_key, verify_payment,
};
use std::collections::HashMap;
use vstd::prelude::*;
use vstd::std_specs::iter::IteratorSpec;

verus! {

broadcast use vstd::std_specs::hash::group_hash_axioms;

/// The state of the service: who is registered, what was paid, and the
/// chain of blocks.
pub struct Storage {
    /// The registered residents, each under their identifier.
    pub residents: HashMap<u32, Resident>,
    /// The payments in the order in which they were accepted.
    pub payments: Vec<Payment>,
    /// The chain of blocks.
    pub blockchain: Blockchain,
}

/// What a caller is shown of the accounts.
#[derive(Debug)]
pub enum Report {
    /// One resident's account.
    Resident {
        /// The resident's identifier.
        id: u32,
        /// The resident's balance.
        saldo: u64,
        /// The resident's payments, oldest first.
        pagos: Vec<Payment>,
    },
    /// Every resident's name with their balance, one entry for each
    /// resident, in no particular order.
    Summary {
        /// The entries.
        resumen: Vec<(String, u64)>,
    },
}

/// Whether `entries` name each resident of `registry` once, by name, with
/// the balance that `payments` give them.
pub open spec fn is_summary_of(
    entries: Seq<(String, u64)>,
    registry: Map<u32, Resident>,
    payments: Seq<Payment>,
) -> bool {
    exists|residents: Seq<Resident>|
        {
            &&& is_listing_of(residents, registry)
            &&& is_summary_by(entries, residents, payments)
        }
}

/// Whether entry `i` of `entries` holds the name and the balance of
/// resident `i` of `residents`, for each of them.
pub open spec fn is_summary_by(
    entries: Seq<(String, u64)>,
    residents: Seq<Resident>,
    payments: Seq<Payment>,
) -> bool {
    &&& entries.len() == residents.len()
    &&& forall|i: int|
        0 <= i < entries.len() ==> (#[trigger] entries[i]).0@ == residents[i].name@
            && entries[i].1 == balance(payments, residents[i].id)
}

/// Whether the balance of some registered resident does not fit in 64 bits.
pub open spec fn some_balance_overflows(registry: Map<u32, Resident>, payments: Seq<Payment>)
    -> bool {
    exists|key: u32| #[trigger]
        registry.contains_key(key) && balance(payments, registry[key].id) > u64::MAX
}

/// What `payment` adds to the balance of resident `resident_id`.
pub open spec fn share(payment: Payment, resident_id: u32) -> nat {
    if payment.resident_id == resident_id {
        payment.amount_copt as nat
    } else {
        0
    }
}

/// The sum of the amounts of those `payments` that resident `resident_id`
/// made.
pub open spec fn balance(payments: Seq<Payment>, resident_id: u32) -> nat
    decreases payments.len(),
{
    if payments.len() == 0 {
        0
    } else {
        balance(payments.drop_last(), resident_id) + share(payments.last(), resident_id)
    }
}

/// Whether `payment` is listed when payments are asked for with `filter`:
/// every payment without a filter, else those of the named resident.
pub open spec fn is_listed(payment: Payment, filter: Option<u32>) -> bool {
    match filter {
        Some(resident_id) => payment.resident_id == resident_id,
        None => true,
    }
}

/// Whether `residents` are the values of `registry` under `keys`, where
/// `keys` names each key of the registry once.
pub open spec fn is_listing_by(residents: Seq<Resident>, registry: Map<u32, Resident>, keys: Seq<u32>)
    -> bool {
    &&& keys.len() == residents.len()
    &&& keys.no_duplicates()
    &&& forall|id: u32| keys.contains(id) <==> registry.contains_key(id)
    &&& forall|i: int| 0 <= i < keys.len() ==> residents[i] == registry[#[trigger] keys[i]]
}

/// Whether `residents` holds each resident of `registry` once: there is an
/// order of the registry's keys in which `residents` are its values.
pub open spec fn is_listing_of(residents: Seq<Resident>, registry: Map<u32, Resident>) -> bool {
    exists|keys: Seq<u32>| is_listing_by(residents, registry, keys)
}

/// Recording a payment raises the balance of the resident who paid by its
/// amount and leaves every other balance as it was.
pub proof fn lemma_balance_after_payment(payments: Seq<Payment>, payment: Payment, resident_id: u32)
    ensures
        balance(payments.push(payment), resident_id) == balance(payments, resident_id) + share(
            payment,
            resident_id,
        ),
{
    assert(payments.push(payment).drop_last() =~= payments);
}

/// A resident none of whose payments are in the log has balance zero.
pub proof fn lemma_balance_without_payments(payments: Seq<Payment>, resident_id: u32)
    requires
        forall|i: int| 0 <= i < payments.len() ==> payments[i].resident_id != resident_id,
    ensures
        balance(payments, resident_id) == 0,
    decreases payments.len(),
{
    if payments.len() > 0 {
        lemma_balance_without_payments(payments.drop_last(), resident_id);
    }
}

/// The balance over a part of the log is at most the balance over the whole.
pub proof fn lemma_balance_grows(payments: Seq<Payment>, resident_id: u32, n: int)
    requires
        0 <= n <= payments.len(),
    ensures
        balance(payments.take(n), resident_id) <= balance(payments, resident_id),
    decreases payments.len(),
{
    if n < payments.len() {
        lemma_balance_grows(payments.drop_last(), resident_id, n);
        assert(payments.drop_last().take(n) =~= payments.take(n));
    } else {
        assert(payments.take(n) =~= payments);
    }
}

impl Storage {
    /// Whether every resident is registered under their own identifier.
    pub open spec fn is_consistent(&self) -> bool {
        forall|id: u32| #[trigger]
            self.residents@.contains_key(id) ==> self.residents@[id].id == id
    }

    /// The balance of resident `resident_id`: the sum of their payments.
    pub open spec fn balance_of(&self, resident_id: u32) -> nat {
        balance(self.payments@, resident_id)
    }

    /// An empty ledger: no residents, no payments, and a chain that holds
    /// only a genesis block stamped with the current time.
    pub fn new() -> (storage: Storage)
        ensures
            storage.residents@ == Map::<u32, Resident>::empty(),
            storage.payments@ == Seq::<Payment>::empty(),
            storage.blockchain@ == seq![
                crate::blockchain::genesis_block(storage.blockchain@[0].timestamp),
            ],
            is_intact(storage.blockchain@),
            storage.blockchain.can_grow(),
            storage.is_consistent(),
    {
        Storage { residents: HashMap::new(), payments: Vec::new(), blockchain: Blockchain::new() }
    }

    /// Registers `resident` under their identifier. Where a resident with
    /// that identifier is registered already, nothing changes and the call
    /// is rejected with [`LedgerError::DuplicateResident`].
    pub fn add_resident(&mut self, resident: Resident) -> (outcome: Result<(), LedgerError>)
        ensures
            outcome is Ok <==> !old(self).residents@.contains_key(resident.id),
            outcome is Ok ==> final(self).residents@ == old(self).residents@.insert(
                resident.id,
                resident,
            ),
            outcome matches Err(e) ==> e == LedgerError::DuplicateResident && final(self).residents
                == old(self).residents,
            final(self).payments == old(self).payments,
            final(self).blockchain == old(self).blockchain,
            old(self).is_consistent() ==> final(self).is_consistent(),
    {
        if self.residents.contains_key(&resident.id) {
            return Err(LedgerError::DuplicateResident);
        }
        self.residents.insert(resident.id, resident);
        Ok(())
    }

    /// Appends `payment` to the log. Whether the resident is registered is
    /// not examined.
    pub fn add_payment(&mut self, payment: Payment)
        ensures
            final(self).payments@ == old(self).payments@.push(payment),
            final(self).residents == old(self).residents,
            final(self).blockchain == old(self).blockchain,
            forall|id: u32| #[trigger]
                final(self).balance_of(id) == old(self).balance_of(id) + share(payment, id),
    {
        proof {
            assert forall|id: u32|
                balance(self.payments@.push(payment), id) == #[trigger] balance(
                    self.payments@,
                    id,
                ) + share(payment, id) by {
                lemma_balance_after_payment(self.payments@, payment, id);
            }
        }
        self.payments.push(payment);
    }

    /// Why a charge of resident `resident_id` by `user` is turned down, if
    /// it is: the caller is someone else, the resident is not registered,
    /// the resident's key is no signing key, or the chain cannot grow.
    pub open spec fn charge_refusal(&self, user: &AuthenticatedUser, resident_id: u32) -> Option<
        LedgerError,
    > {
        if resident_id != user.id {
            Some(LedgerError::Forbidden)
        } else if !self.residents@.contains_key(resident_id) {
            Some(LedgerError::ResidentNotFound)
        } else if signing_key(self.residents@[resident_id]@.private_key) is None {
            Some(LedgerError::InvalidKey)
        } else if !self.blockchain.can_grow() {
            Some(LedgerError::ChainExhausted)
        } else {
            None
        }
    }

    /// The transaction that a charge of `amount` to resident `resident_id`
    /// at second `timestamp` puts on the chain.
    pub open spec fn charge_transaction(&self, resident_id: u32, amount: u64, timestamp: u64)
        -> PaymentTxView {
        PaymentTxView {
            resident_id,
            amount,
            timestamp,
            hash_firma: payment_signature(
                signing_key(self.residents@[resident_id]@.private_key).unwrap(),
                resident_id,
                amount,
                timestamp,
            ),
        }
    }

    /// Charges resident `resident_id` the given `amount` at the instant
    /// `now`, on behalf of `user`.
    ///
    /// A resident may be charged only by themselves. The payment is signed
    /// with the resident's key, appended to the log, and anchored in a new
    /// block that holds this one transaction. A charge that is turned down
    /// changes nothing.
    pub fn charge_at(
        &mut self,
        user: &AuthenticatedUser,
        resident_id: u32,
        amount: u64,
        now: Timestamp,
    ) -> (outcome: Result<(), LedgerError>)
        ensures
            outcome is Ok <==> old(self).charge_refusal(user, resident_id) is None,
            outcome matches Err(e) ==> old(self).charge_refusal(user, resident_id) == Some(e)
                && *final(self) == *old(self),
            outcome is Ok ==> {
                let tx = old(self).charge_transaction(resident_id, amount, now.block_seconds());
                &&& final(self).residents == old(self).residents
                &&& final(self).payments@ == old(self).payments@.push(
                    Payment { resident_id, amount_copt: amount, timestamp: now },
                )
                &&& final(self).blockchain@ == old(self).blockchain@.push(
                    next_block(old(self).blockchain@.last(), now.block_seconds(), seq![tx]),
                )
                &&& final(self).is_authentic(tx)
                &&& forall|id: u32| #[trigger]
                    final(self).balance_of(id) == old(self).balance_of(id) + if id
                        == resident_id {
                        amount as nat
                    } else {
                        0
                    }
            },
            is_intact(old(self).blockchain@) ==> is_intact(final(self).blockchain@),
    {
        if resident_id != user.id {
            return Err(LedgerError::Forbidden);
        }
        let timestamp = now.block_seconds();
        let signature = match self.residents.get(&resident_id) {
            Some(resident) => sign_payment(resident, resident_id, amount, timestamp),
            None => {
                return Err(LedgerError::ResidentNotFound);
            },
        };
        let hash_firma = match signature {
            Ok(hash_firma) => hash_firma,
            Err(e) => {
                return Err(e);
            },
        };
        if !self.blockchain.is_growable() {
            return Err(LedgerError::ChainExhausted);
        }
        let ghost before = self.payments@;
        let payment = Payment::at(resident_id, amount, now);
        self.add_payment(payment);
        let tx = PaymentTx { resident_id, amount, timestamp, hash_firma };
        let mut transactions = Vec::new();
        transactions.push(tx);
        assert(crate::blockchain::transaction_views(transactions@) =~= seq![tx@]);
        self.blockchain.append_at(transactions, timestamp);
        proof {
            assert forall|id: u32| #[trigger]
                self.balance_of(id) == balance(before, id) + share(payment, id) by {
                lemma_balance_after_payment(before, payment, id);
            }
        }
        Ok(())
    }

    /// Charges resident `resident_id` the given `amount` now, on behalf of
    /// `user`. See [`Storage::charge_at`]; the instant is read from the
    /// system clock once, and it stamps the payment, the transaction and
    /// the block alike.
    pub fn charge(&mut self, user: &AuthenticatedUser, resident_id: u32, amount: u64) -> (outcome:
        Result<(), LedgerError>)
        ensures
            outcome is Ok <==> old(self).charge_refusal(user, resident_id) is None,
            outcome matches Err(e) ==> old(self).charge_refusal(user, resident_id) == Some(e)
                && *final(self) == *old(self),
            outcome is Ok ==> {
                let paid = final(self).payments@.last();
                let second = final(self).blockchain@.last().timestamp;
                let tx = old(self).charge_transaction(resident_id, amount, second);
                &&& final(self).residents == old(self).residents
                &&& final(self).payments@ == old(self).payments@.push(paid)
                &&& paid.resident_id == resident_id
                &&& paid.amount_copt == amount
                &&& paid.timestamp.block_seconds() == second
                &&& final(self).blockchain@ == old(self).blockchain@.push(
                    next_block(old(self).blockchain@.last(), second, seq![tx]),
                )
                &&& final(self).is_authentic(tx)
                &&& forall|id: u32| #[trigger]
                    final(self).balance_of(id) == old(self).balance_of(id) + if id
                        == resident_id {
                        amount as nat
                    } else {
                        0
                    }
            },
            is_intact(old(self).blockchain@) ==> is_intact(final(self).blockchain@),
    {
        self.charge_at(user, resident_id, amount, utc_now())
    }

    /// Whether `tx` is authentic: its resident is registered, the resident's
    /// key is a signing key, and `tx` carries a valid signature of its own
    /// canonical message under the public key that belongs to that key.
    pub open spec fn is_authentic(&self, tx: PaymentTxView) -> bool {
        &&& self.residents@.contains_key(tx.resident_id)
        &&& match signing_key(self.residents@[tx.resident_id]@.private_key) {
            Some(key) => is_signed_by(tx, ed25519_public_key(key)),
            None => false,
        }
    }

    /// Tells whether `tx` is authentic.
    pub fn verify_transaction(&self, tx: &PaymentTx) -> (ok: bool)
        ensures
            ok == self.is_authentic(tx@),
    {
        let resident = match self.residents.get(&tx.resident_id) {
            Some(resident) => resident,
            None => {
                return false;
            },
        };
        let key = match decode_signing_key(resident.private_key.as_str()) {
            Ok(key) => key,
            Err(_) => {
                return false;
            },
        };
        match public_key_of(key.as_slice()) {
            Ok(public_key) => verify_payment(public_key.as_slice(), tx),
            Err(_) => false,
        }
    }

    /// Why the registration of resident `resident_id` by `user` is turned
    /// down, if it is: the caller is no administrator, or the identifier is
    /// taken.
    pub open spec fn registration_refusal(&self, user: &AuthenticatedUser, resident_id: u32)
        -> Option<LedgerError> {
        if !user.has_admin_role() {
            Some(LedgerError::Forbidden)
        } else if self.residents@.contains_key(resident_id) {
            Some(LedgerError::DuplicateResident)
        } else {
            None
        }
    }

    /// Registers a resident with the signing key whose base64 text is
    /// `private_key`, on behalf of `user`. Only an administrator may
    /// register residents, and an identifier is given out once. A
    /// registration that is turned down changes nothing.
    pub fn register_with_key(
        &mut self,
        user: &AuthenticatedUser,
        resident_id: u32,
        name: String,
        wallet: String,
        private_key: String,
    ) -> (outcome: Result<(), LedgerError>)
        ensures
            outcome is Ok <==> old(self).registration_refusal(user, resident_id) is None,
            outcome matches Err(e) ==> old(self).registration_refusal(user, resident_id) == Some(e)
                && *final(self) == *old(self),
            outcome is Ok ==> final(self).residents@ == old(self).residents@.insert(
                resident_id,
                Resident { id: resident_id, name, wallet, private_key },
            ),
            final(self).payments == old(self).payments,
            final(self).blockchain == old(self).blockchain,
            old(self).is_consistent() ==> final(self).is_consistent(),
    {
        if !user.is_admin() {
            return Err(LedgerError::Forbidden);
        }
        self.add_resident(Resident { id: resident_id, name, wallet, private_key })
    }

    /// Registers a resident with a freshly made signing key, on behalf of
    /// `user`. See [`Storage::register_with_key`]; the key comes from the
    /// system's random source, and where that gives none the registration
    /// fails with [`LedgerError::KeySourceUnavailable`].
    pub fn register(&mut self, user: &AuthenticatedUser, resident_id: u32, name: String, wallet: String)
        -> (outcome: Result<(), LedgerError>)
        ensures
            old(self).registration_refusal(user, resident_id) matches Some(e) ==> outcome == Err::<
                (),
                LedgerError,
            >(e),
            old(self).registration_refusal(user, resident_id) is None ==> outcome is Ok
                || outcome == Err::<(), LedgerError>(LedgerError::KeySourceUnavailable),
            outcome is Err ==> *final(self) == *old(self),
            outcome is Ok ==> {
                let registered = final(self).residents@[resident_id];
                &&& final(self).residents@ == old(self).residents@.insert(resident_id, registered)
                &&& registered.id == resident_id
                &&& registered.name == name
                &&& registered.wallet == wallet
                &&& signing_key(registered@.private_key) is Some
            },
            final(self).payments == old(self).payments,
            final(self).blockchain == old(self).blockchain,
            old(self).is_consistent() ==> final(self).is_consistent(),
    {
        if !user.is_admin() {
            return Err(LedgerError::Forbidden);
        }
        if self.residents.contains_key(&resident_id) {
            return Err(LedgerError::DuplicateResident);
        }
        let private_key = generate_signing_key()?;
        self.register_with_key(user, resident_id, name, wallet, private_key)
    }

    /// The claims of a session for resident `resident_id`, begun at `now`,
    /// where a resident with that identifier and that name is registered;
    /// nothing for other credentials. The session has the role `user`.
    pub fn login(&self, resident_id: u32, name: &str, now: Timestamp) -> (claims: Option<Claims>)
        requires
            now.seconds <= i64::MAX - SESSION_SECONDS,
        ensures
            claims is Some <==> self.residents@.contains_key(resident_id)
                && self.residents@[resident_id].name@ == name@,
            claims matches Some(c) ==> {
                &&& c.sub == self.residents@[resident_id].id
                &&& c.name@ == name@
                &&& c.role@ == seq!['u', 's', 'e', 'r']
                &&& c.exp == session_end(now)
            },
    {
        match self.residents.get(&resident_id) {
            Some(resident) => {
                if resident.name == name.to_owned() {
                    proof {
                        reveal_strlit("user");
                        assert("user"@ =~= seq!['u', 's', 'e', 'r']);
                    }
                    Some(
                        Claims::for_session(
                            resident.id,
                            resident.name.clone(),
                            "user".to_owned(),
                            now,
                        ),
                    )
                } else {
                    None
                }
            },
            None => None,
        }
    }

    /// What `user` is shown: with an identifier, that resident's balance
    /// and payments; without one, every resident's name and balance.
    ///
    /// A caller may ask only for their own account, and only if they are
    /// registered; any other identifier is answered with
    /// [`LedgerError::ResidentNotFound`]. A balance that does not fit in 64
    /// bits is answered with [`LedgerError::BalanceOverflow`].
    pub fn report(&self, user: &AuthenticatedUser, resident_id: Option<u32>) -> (outcome: Result<
        Report,
        LedgerError,
    >)
        ensures
            match resident_id {
                Some(id) => if id != user.id || !self.residents@.contains_key(id) {
                    outcome matches Err(e) && e == LedgerError::ResidentNotFound
                } else if self.balance_of(id) > u64::MAX {
                    outcome matches Err(e) && e == LedgerError::BalanceOverflow
                } else {
                    outcome matches Ok(Report::Resident { id: shown, saldo, pagos }) && shown == id
                        && saldo == self.balance_of(id) && pagos@ == self.payments@.filter(
                        |p: Payment| is_listed(p, Some(id)),
                    )
                },
                None => if some_balance_overflows(self.residents@, self.payments@) {
                    outcome matches Err(e) && e == LedgerError::BalanceOverflow
                } else {
                    outcome matches Ok(Report::Summary { resumen }) && is_summary_of(
                        resumen@,
                        self.residents@,
                        self.payments@,
                    )
                },
            },
    {
        match resident_id {
            Some(id) => {
                if id != user.id || !self.residents.contains_key(&id) {
                    return Err(LedgerError::ResidentNotFound);
                }
                let saldo = match self.checked_balance(id) {
                    Some(saldo) => saldo,
                    None => {
                        return Err(LedgerError::BalanceOverflow);
                    },
                };
                let listed = self.list_payments(Some(id));
                let mut pagos: Vec<Payment> = Vec::new();
                let mut i: usize = 0;
                while i < listed.len()
                    invariant
                        i <= listed.len(),
                        pagos@ == listed@.map_values(|p: &Payment| *p).take(i as int),
                    decreases listed.len() - i,
                {
                    pagos.push(*listed[i]);
                    assert(pagos@ =~= listed@.map_values(|p: &Payment| *p).take(i + 1));
                    i += 1;
                }
                assert(pagos@ =~= listed@.map_values(|p: &Payment| *p));
                Ok(Report::Resident { id, saldo, pagos })
            },
            None => {
                let listed = self.list_residents();
                let ghost residents = listed@.map_values(|r: &Resident| *r);
                let ghost keys = choose|keys: Seq<u32>|
                    is_listing_by(residents, self.residents@, keys);
                let mut resumen: Vec<(String, u64)> = Vec::new();
                let mut i: usize = 0;
                while i < listed.len()
                    invariant
                        resident_id is None,
                        i <= listed.len(),
                        residents == listed@.map_values(|r: &Resident| *r),
                        is_listing_by(residents, self.residents@, keys),
                        is_summary_by(resumen@, residents.take(i as int), self.payments@),
                    decreases listed.len() - i,
                {
                    let resident = listed[i];
                    proof {
                        let key = keys[i as int];
                        assert(keys.contains(key));
                        assert(self.residents@.contains_key(key));
                        assert(*resident == residents[i as int]);
                        assert(*resident == self.residents@[key]);
                    }
                    let saldo = match self.checked_balance(resident.id) {
                        Some(saldo) => saldo,
                        None => {
                            assert(some_balance_overflows(self.residents@, self.payments@));
                            return Err(LedgerError::BalanceOverflow);
                        },
                    };
                    resumen.push((resident.name.clone(), saldo));
                    i += 1;
                }
                proof {
                    assert(residents.take(i as int) =~= residents);
                    assert(is_listing_of(residents, self.residents@));
                    if some_balance_overflows(self.residents@, self.payments@) {
                        let key = choose|key: u32| #[trigger]
                            self.residents@.contains_key(key) && balance(
                                self.payments@,
                                self.residents@[key].id,
                            ) > u64::MAX;
                        assert(keys.contains(key));
                        let j = choose|j: int| 0 <= j < keys.len() && keys[j] == key;
                        assert(resumen@[j].1 == balance(self.payments@, residents[j].id));
                    }
                }
                Ok(Report::Summary { resumen })
            },
        }
    }

    /// The ledger to go on with after a restart, from what the three stored
    /// parts held. A part that was missing or could not be read is given as
    /// `None` and replaced by its empty state: no residents, no payments, a
    /// fresh chain. A stored chain that holds no block is replaced by a
    /// fresh chain too, so the ledger's chain is never empty. The other
    /// parts are kept as they are.
    pub fn load_from_files(
        residents: Option<HashMap<u32, Resident>>,
        payments: Option<Vec<Payment>>,
        blockchain: Option<Blockchain>,
    ) -> (storage: Storage)
        ensures
            residents matches Some(registry) ==> storage.residents == registry,
            residents is None ==> storage.residents@ == Map::<u32, Resident>::empty(),
            payments matches Some(log) ==> storage.payments == log,
            payments is None ==> storage.payments@ == Seq::<Payment>::empty(),
            storage.blockchain@.len() >= 1,
            match blockchain {
                Some(chain) => if chain@.len() > 0 {
                    storage.blockchain == chain
                } else {
                    storage.blockchain@ == seq![
                        crate::blockchain::genesis_block(storage.blockchain@[0].timestamp),
                    ] && is_intact(storage.blockchain@)
                },
                None => storage.blockchain@ == seq![
                    crate::blockchain::genesis_block(storage.blockchain@[0].timestamp),
                ] && is_intact(storage.blockchain@),
            },
    {
        let residents = match residents {
            Some(registry) => registry,
            None => HashMap::new(),
        };
        let payments = match payments {
            Some(log) => log,
            None => Vec::new(),
        };
        Storage { residents, payments, blockchain: Blockchain::load_or_initialize(blockchain) }
    }

    /// The balance of resident `resident_id`, or nothing where the sum does
    /// not fit in 64 bits. A resident without payments has balance zero.
    pub fn checked_balance(&self, resident_id: u32) -> (total: Option<u64>)
        ensures
            total is Some <==> self.balance_of(resident_id) <= u64::MAX,
            total matches Some(t) ==> t == self.balance_of(resident_id),
    {
        let mut total: u64 = 0;
        let mut i: usize = 0;
        while i < self.payments.len()
            invariant
                i <= self.payments.len(),
                total == balance(self.payments@.take(i as int), resident_id),
            decreases self.payments.len() - i,
        {
            let payment = &self.payments[i];
            proof {
                assert(self.payments@.take(i + 1).drop_last() =~= self.payments@.take(i as int));
                lemma_balance_grows(self.payments@, resident_id, i + 1);
            }
            if payment.resident_id == resident_id {
                match total.checked_add(payment.amount_copt) {
                    Some(sum) => {
                        total = sum;
                    },
                    None => {
                        return None;
                    },
                }
            }
            i += 1;
        }
        assert(self.payments@.take(i as int) =~= self.payments@);
        Some(total)
    }

    /// The balance of resident `resident_id`: the sum of the amounts of
    /// their payments, and zero where they have none.
    pub fn get_resident_balance(&self, resident_id: u32) -> (total: u64)
        requires
            self.balance_of(resident_id) <= u64::MAX,
        ensures
            total == self.balance_of(resident_id),
    {
        match self.checked_balance(resident_id) {
            Some(total) => total,
            None => 0,
        }
    }

    /// The registered residents, each once, in no particular order.
    pub fn list_residents(&self) -> (listed: Vec<&Resident>)
        ensures
            is_listing_of(listed@.map_values(|r: &Resident| *r), self.residents@),
    {
        let mut listed: Vec<&Resident> = Vec::new();
        let ghost mut keys: Seq<u32> = Seq::empty();
        let ghost entries = self.residents.iter().remaining();
        for entry in it: self.residents.iter()
            invariant
                it.seq() == entries,
                listed@.len() == it.index(),
                keys.len() == it.index(),
                forall|j: int|
                    #![trigger entries[j]]
                    0 <= j < it.index() ==> keys[j] == *entries[j].0 && *listed@[j]
                        == *entries[j].1,
        {
            listed.push(entry.1);
            proof {
                keys = keys.push(*entry.0);
            }
        }
        proof {
            let registry = self.residents@;
            let residents = listed@.map_values(|r: &Resident| *r);
            assert(entries.no_duplicates());
            assert forall|i: int, j: int|
                0 <= i < keys.len() && 0 <= j < keys.len() && i != j implies keys[i]
                != keys[j] by {
                if keys[i] == keys[j] {
                    assert(registry[*entries[i].0] == *entries[i].1);
                    assert(registry[*entries[j].0] == *entries[j].1);
                    assert(entries[i] == entries[j]);
                }
            }
            assert forall|id: u32| keys.contains(id) <==> registry.contains_key(id) by {
                if keys.contains(id) {
                    let i = choose|i: int| 0 <= i < keys.len() && keys[i] == id;
                    assert(registry.contains_key(*entries[i].0));
                }
                if registry.contains_key(id) {
                    assert(entries.contains((&id, &registry[id])));
                    let i = choose|i: int|
                        0 <= i < entries.len() && entries[i] == (&id, &registry[id]);
                    assert(keys[i] == id);
                }
            }
            assert forall|i: int| 0 <= i < keys.len() implies residents[i] == registry[#[trigger] keys[i]] by {
                assert(registry[*entries[i].0] == *entries[i].1);
            }
            assert(is_listing_by(residents, registry, keys));
        }
        listed
    }

    /// The payments of one resident, or all payments where none is named,
    /// in the order in which they were accepted.
    pub fn list_payments(&self, resident_id: Option<u32>) -> (listed: Vec<&Payment>)
        ensures
            listed@.map_values(|p: &Payment| *p) == self.payments@.filter(
                |p: Payment| is_listed(p, resident_id),
            ),
    {
        let mut listed: Vec<&Payment> = Vec::new();
        let mut i: usize = 0;
        proof {
            reveal(Seq::filter);
            assert(listed@.map_values(|p: &Payment| *p) =~= Seq::<Payment>::empty());
        }
        while i < self.payments.len()
            invariant
                i <= self.payments.len(),
                listed@.map_values(|p: &Payment| *p) == self.payments@.take(i as int).filter(
                    |p: Payment| is_listed(p, resident_id),
                ),
            decreases self.payments.len() - i,
        {
            let payment = &self.payments[i];
            let ghost before = listed@.map_values(|p: &Payment| *p);
            let shown = match resident_id {
                Some(id) => payment.resident_id == id,
                None => true,
            };
            if shown {
                listed.push(payment);
            }
            proof {
                reveal(Seq::filter);
                let next = self.payments@.take(i + 1);
                assert(next.drop_last() =~= self.payments@.take(i as int));
                assert(next.last() == *payment);
                if shown {
                    assert(listed@.map_values(|p: &Payment| *p) =~= before.push(*payment));
                }
            }
            i += 1;
        }
        assert(self.payments@.take(i as int) =~= self.payments@);
        listed
    }
}

} // verus!

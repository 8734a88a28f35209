//! Hash-locked escrows: a sender locks an amount for a recipient, who claims it
//! before the expiration by revealing a preimage whose SHA-256 digest is the
//! hashlock; after the expiration the sender can take it back.
//!
//! Ledger time is passed in as `now`.  A refused call reports the reason and
//! leaves the escrows unchanged.

use vstd::prelude::*;
use crate::idmap::{distinct_ids, find_id, id_map, upsert_id};

verus! {

/// Length of a preimage and of a digest (bytes).
pub const HASH_LEN: usize = 32;

/// The SHA-256 digest of `data`.
pub uninterp spec fn sha256_digest(data: Seq<u8>) -> Seq<u8>;

/// SHA-256 of 32 bytes, computed by the Soroban host (`Crypto::sha256`).  The
/// result is the digest of the bytes, which depends on them alone, and is 32
/// bytes long.
#[verifier::external_body]
fn sha256(data: &Vec<u8>) -> (r: Vec<u8>)
    requires
        data@.len() == HASH_LEN,
    ensures
        r@ == sha256_digest(data@),
        r@.len() == HASH_LEN,
{
    let env = soroban_sdk::Env::default();
    let bytes = soroban_sdk::Bytes::from_slice(&env, data.as_slice());
    env.crypto().sha256(&bytes).to_array().to_vec()
}

/// An escrow.
#[derive(Debug, PartialEq, Eq)]
pub struct Escrow {
    pub sender: String,
    pub recipient: String,
    pub token: String,
    pub amount: i128,
    pub hashlock: Vec<u8>,
    pub expiration: u64,
    pub claimed: bool,
    pub refunded: bool,
}

/// An escrow as a mathematical value.
pub struct EscrowRecord {
    pub sender: Seq<char>,
    pub recipient: Seq<char>,
    pub token: Seq<char>,
    pub amount: i128,
    pub hashlock: Seq<u8>,
    pub expiration: u64,
    pub claimed: bool,
    pub refunded: bool,
}

/// The model of an escrow.
pub open spec fn escrow_record(e: Escrow) -> EscrowRecord {
    EscrowRecord {
        sender: e.sender@,
        recipient: e.recipient@,
        token: e.token@,
        amount: e.amount,
        hashlock: e.hashlock@,
        expiration: e.expiration,
        claimed: e.claimed,
        refunded: e.refunded,
    }
}

/// `r` is the error with text `msg`.
pub open spec fn fails_with<T>(r: Result<T, String>, msg: Seq<char>) -> bool {
    r matches Err(e) && e@ == msg
}

/// Whether two byte strings are equal.
fn bytes_equal(a: &Vec<u8>, b: &Vec<u8>) -> (r: bool)
    ensures
        r == (a@ == b@),
{
    if a.len() != b.len() {
        return false;
    }
    let mut i: usize = 0;
    while i < a.len()
        invariant
            a@.len() == b@.len(),
            i <= a@.len(),
            forall|j: int| 0 <= j < i ==> a@[j] == b@[j],
        decreases a@.len() - i,
    {
        if a[i] != b[i] {
            return false;
        }
        i = i + 1;
    }
    proof {
        assert(a@ =~= b@);
    }
    true
}

/// Why a claim of escrow `id` by `recipient` with a preimage of digest `digest`
/// at `now` is refused, if it is.
pub open spec fn claim_refusal(m: Map<u64, EscrowRecord>, recipient: Seq<char>, id: u64, digest: Seq<u8>, now: u64) -> Option<
    Seq<char>,
> {
    if !m.dom().contains(id) {
        Some("Escrow not found"@)
    } else if m[id].recipient != recipient {
        Some("Unauthorized recipient"@)
    } else if m[id].claimed || m[id].refunded {
        Some("Escrow already settled"@)
    } else if now > m[id].expiration {
        Some("Escrow has expired"@)
    } else if digest != m[id].hashlock {
        Some("Invalid secret preimage"@)
    } else {
        None
    }
}

/// Why a refund of escrow `id` to `sender` at `now` is refused, if it is.
pub open spec fn refund_refusal(m: Map<u64, EscrowRecord>, sender: Seq<char>, id: u64, now: u64) -> Option<Seq<char>> {
    if !m.dom().contains(id) {
        Some("Escrow not found"@)
    } else if m[id].sender != sender {
        Some("Unauthorized sender"@)
    } else if m[id].claimed || m[id].refunded {
        Some("Escrow already settled"@)
    } else if now <= m[id].expiration {
        Some("Escrow has not yet expired"@)
    } else {
        None
    }
}

/// The escrows, by identifier.
pub struct CrossContractEscrowContract {
    escrows: Vec<(u64, Escrow)>,
}

impl View for CrossContractEscrowContract {
    type V = Map<u64, EscrowRecord>;

    closed spec fn view(&self) -> Map<u64, EscrowRecord> {
        id_map(self.escrows@).map_values(|e: Escrow| escrow_record(e))
    }
}

impl CrossContractEscrowContract {
    /// One escrow per identifier.
    pub closed spec fn wf(&self) -> bool {
        distinct_ids(self.escrows@)
    }

    /// No escrows.
    pub fn new() -> (r: Self)
        ensures
            r.wf(),
            r@ == Map::<u64, EscrowRecord>::empty(),
    {
        let r = CrossContractEscrowContract { escrows: Vec::new() };
        proof {
            assert(id_map(r.escrows@).map_values(|e: Escrow| escrow_record(e)) =~= Map::<u64, EscrowRecord>::empty());
        }
        r
    }

    /// Store escrow `id`.
    fn put(&mut self, id: u64, e: Escrow)
        requires
            old(self).wf(),
        ensures
            final(self).wf(),
            final(self)@ == old(self)@.insert(id, escrow_record(e)),
    {
        let ghost rec = escrow_record(e);
        upsert_id(&mut self.escrows, id, e);
        proof {
            assert(id_map(self.escrows@).map_values(|x: Escrow| escrow_record(x)) =~= old(self)@.insert(id, rec));
        }
    }

    /// Lock a positive `amount` of `token` from `sender` for `recipient` under a
    /// new identifier, claimable with the preimage of `hashlock` (a 32-byte SHA-256
    /// digest) until `now + duration`.
    pub fn create_escrow(
        &mut self,
        sender: &str,
        recipient: &str,
        token: &str,
        escrow_id: u64,
        amount: i128,
        hashlock: Vec<u8>,
        duration: u64,
        now: u64,
    ) -> (r: Result<(), String>)
        requires
            old(self).wf(),
            now + duration <= u64::MAX,
            hashlock@.len() == 32,
        ensures
            final(self).wf(),
            amount <= 0 ==> fails_with(r, "Escrow amount must be positive"@) && final(self)@ == old(self)@,
            amount > 0 && old(self)@.dom().contains(escrow_id) ==> fails_with(r, "Escrow ID already exists"@) && final(self)@ == old(self)@,
            amount > 0 && !old(self)@.dom().contains(escrow_id) ==> r is Ok && final(self)@ == old(self)@.insert(
                escrow_id,
                EscrowRecord {
                    sender: sender@,
                    recipient: recipient@,
                    token: token@,
                    amount,
                    hashlock: hashlock@,
                    expiration: (now + duration) as u64,
                    claimed: false,
                    refunded: false,
                },
            ),
    {
        if amount <= 0 {
            proof {
                reveal_strlit("Escrow amount must be positive");
            }
            return Err(String::from_str("Escrow amount must be positive"));
        }
        if find_id(&self.escrows, escrow_id).is_some() {
            proof {
                reveal_strlit("Escrow ID already exists");
            }
            return Err(String::from_str("Escrow ID already exists"));
        }
        let escrow = Escrow {
            sender: String::from_str(sender),
            recipient: String::from_str(recipient),
            token: String::from_str(token),
            amount,
            hashlock,
            expiration: now + duration,
            claimed: false,
            refunded: false,
        };
        self.put(escrow_id, escrow);
        Ok(())
    }

    /// Position of escrow `id` in the table, if it exists.
    fn find(&self, id: u64) -> (r: Option<usize>)
        requires
            self.wf(),
        ensures
            match r {
                Some(i) => i < self.escrows@.len() && self.escrows@[i as int].0 == id && self@.dom().contains(id)
                    && self@[id] == escrow_record(self.escrows@[i as int].1),
                None => !self@.dom().contains(id),
            },
    {
        find_id(&self.escrows, id)
    }

    /// Settle escrow `id` as claimed (or refunded).
    fn settle(&mut self, i: usize, claimed: bool)
        requires
            old(self).wf(),
            i < old(self).escrows@.len(),
        ensures
            final(self).wf(),
            ({
                let id = old(self).escrows@[i as int].0;
                let e = old(self)@[id];
                final(self)@ == old(self)@.insert(
                    id,
                    if claimed {
                        EscrowRecord { claimed: true, ..e }
                    } else {
                        EscrowRecord { refunded: true, ..e }
                    },
                )
            }),
    {
        proof {
            crate::idmap::lemma_id_map_value(self.escrows@, i as int);
        }
        let id = self.escrows[i].0;
        let e = &self.escrows[i].1;
        let copy = Escrow {
            sender: e.sender.clone(),
            recipient: e.recipient.clone(),
            token: e.token.clone(),
            amount: e.amount,
            hashlock: e.hashlock.clone(),
            expiration: e.expiration,
            claimed: if claimed { true } else { e.claimed },
            refunded: if claimed { e.refunded } else { true },
        };
        self.put(id, copy);
    }

    /// Claim escrow `escrow_id` for `recipient` at `now` with a preimage whose
    /// digest is `digest`: it must be the recipient's, unsettled, unexpired, and
    /// the digest its hashlock.
    pub fn claim_with_digest(&mut self, recipient: &str, escrow_id: u64, digest: &Vec<u8>, now: u64) -> (r: Result<
        (),
        String,
    >)
        requires
            old(self).wf(),
        ensures
            final(self).wf(),
            match claim_refusal(old(self)@, recipient@, escrow_id, digest@, now) {
                Some(msg) => fails_with(r, msg) && final(self)@ == old(self)@,
                None => r is Ok && final(self)@ == old(self)@.insert(
                    escrow_id,
                    EscrowRecord { claimed: true, ..old(self)@[escrow_id] },
                ),
            },
    {
        proof {
            reveal_strlit("Escrow not found");
            reveal_strlit("Unauthorized recipient");
            reveal_strlit("Escrow already settled");
            reveal_strlit("Escrow has expired");
            reveal_strlit("Invalid secret preimage");
        }
        let i = match self.find(escrow_id) {
            Some(i) => i,
            None => return Err(String::from_str("Escrow not found")),
        };
        let who = String::from_str(recipient);
        if self.escrows[i].1.recipient != who {
            return Err(String::from_str("Unauthorized recipient"));
        }
        if self.escrows[i].1.claimed || self.escrows[i].1.refunded {
            return Err(String::from_str("Escrow already settled"));
        }
        if now > self.escrows[i].1.expiration {
            return Err(String::from_str("Escrow has expired"));
        }
        if !bytes_equal(digest, &self.escrows[i].1.hashlock) {
            return Err(String::from_str("Invalid secret preimage"));
        }
        self.settle(i, true);
        Ok(())
    }

    /// Claim escrow `escrow_id` for `recipient` at `now` by revealing the
    /// 32-byte `preimage` of its hashlock.
    pub fn claim(&mut self, recipient: &str, escrow_id: u64, preimage: &Vec<u8>, now: u64) -> (r: Result<(), String>)
        requires
            old(self).wf(),
            preimage@.len() == HASH_LEN,
        ensures
            final(self).wf(),
            match claim_refusal(old(self)@, recipient@, escrow_id, sha256_digest(preimage@), now) {
                Some(msg) => fails_with(r, msg) && final(self)@ == old(self)@,
                None => r is Ok && final(self)@ == old(self)@.insert(
                    escrow_id,
                    EscrowRecord { claimed: true, ..old(self)@[escrow_id] },
                ),
            },
    {
        let digest = sha256(preimage);
        self.claim_with_digest(recipient, escrow_id, &digest, now)
    }

    /// Give escrow `escrow_id` back to `sender` after its expiration.
    pub fn refund(&mut self, sender: &str, escrow_id: u64, now: u64) -> (r: Result<(), String>)
        requires
            old(self).wf(),
        ensures
            final(self).wf(),
            match refund_refusal(old(self)@, sender@, escrow_id, now) {
                Some(msg) => fails_with(r, msg) && final(self)@ == old(self)@,
                None => r is Ok && final(self)@ == old(self)@.insert(
                    escrow_id,
                    EscrowRecord { refunded: true, ..old(self)@[escrow_id] },
                ),
            },
    {
        proof {
            reveal_strlit("Escrow not found");
            reveal_strlit("Unauthorized sender");
            reveal_strlit("Escrow already settled");
            reveal_strlit("Escrow has not yet expired");
        }
        let i = match self.find(escrow_id) {
            Some(i) => i,
            None => return Err(String::from_str("Escrow not found")),
        };
        let who = String::from_str(sender);
        if self.escrows[i].1.sender != who {
            return Err(String::from_str("Unauthorized sender"));
        }
        if self.escrows[i].1.claimed || self.escrows[i].1.refunded {
            return Err(String::from_str("Escrow already settled"));
        }
        if now <= self.escrows[i].1.expiration {
            return Err(String::from_str("Escrow has not yet expired"));
        }
        self.settle(i, false);
        Ok(())
    }

    /// An escrow's record, if it exists.
    pub fn get_escrow(&self, escrow_id: u64) -> (r: Option<(bool, bool, i128, u64)>)
        requires
            self.wf(),
        ensures
            self@.dom().contains(escrow_id) ==> r == Some(
                (self@[escrow_id].claimed, self@[escrow_id].refunded, self@[escrow_id].amount, self@[escrow_id].expiration),
            ),
            !self@.dom().contains(escrow_id) ==> r is None,
    {
        match self.find(escrow_id) {
            Some(i) => {
                let e = &self.escrows[i].1;
                Some((e.claimed, e.refunded, e.amount, e.expiration))
            },
            None => None,
        }
    }
}

/// An escrow is settled at most once: once claimed or refunded, every further
/// claim and every refund is refused.
pub proof fn lemma_settled_once(
    m: Map<u64, EscrowRecord>,
    id: u64,
    who: Seq<char>,
    digest: Seq<u8>,
    now: u64,
)
    requires
        m.dom().contains(id),
        m[id].claimed || m[id].refunded,
    ensures
        claim_refusal(m, who, id, digest, now) is Some,
        refund_refusal(m, who, id, now) is Some,
{
}

} // verus!

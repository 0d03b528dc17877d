//! The disbursement retry queue: an ordered backlog of outbound token
//! transfers with a separate backlog for failed ones, a single-flight
//! lock covering both, and a wrapping counter that mints distinct
//! deposit sub-accounts.
//!
//! The transfers themselves are ledger calls the boundary layer makes:
//! a drain step is split into `begin_*` (pick the item, take the lock)
//! and `finish_*` (record the outcome, release the lock).

use vstd::arithmetic::div_mod::lemma_div_by_self;
use vstd::arithmetic::div_mod::lemma_mod_adds;
use vstd::arithmetic::div_mod::lemma_mod_bound;
use vstd::arithmetic::div_mod::lemma_mod_equivalence;
use vstd::arithmetic::div_mod::lemma_small_mod;
use vstd::bytes::lemma_auto_spec_u128_to_from_le_bytes;
use vstd::bytes::spec_u128_to_le_bytes;
use vstd::bytes::u128_to_le_bytes;
use vstd::prelude::*;

use crate::standard_ext::TokenIdentifier;
use crate::strutil::append_decimal;
use crate::strutil::append_str;
use crate::strutil::spec_decimal;
use crate::types::Principal;

verus! {

/// A token amount, tagged by which of the two currencies it is in.
#[derive(Clone, Copy, Debug, PartialEq, Eq, Structural)]
pub enum Amount {
    NDP(u64),
    ICP(u64),
}

impl Amount {
    /// A readable rendering, in place of `Display`.
    pub fn describe(&self) -> (r: String)
        ensures
            *self matches Amount::NDP(a) ==> r@ == "NDP:"@ + spec_decimal(a as nat),
            *self matches Amount::ICP(a) ==> r@ == "ICP:"@ + spec_decimal(a as nat),
    {
        let mut s = String::new();
        match self {
            Amount::NDP(a) => {
                append_str(&mut s, "NDP:");
                append_decimal(&mut s, *a);
                proof {
                    assert((Seq::<char>::empty() + "NDP:"@) + spec_decimal(*a as nat) =~= "NDP:"@
                        + spec_decimal(*a as nat));
                }
            },
            Amount::ICP(a) => {
                append_str(&mut s, "ICP:");
                append_decimal(&mut s, *a);
                proof {
                    assert((Seq::<char>::empty() + "ICP:"@) + spec_decimal(*a as nat) =~= "ICP:"@
                        + spec_decimal(*a as nat));
                }
            },
        }
        s
    }
}

/// A 32-byte deposit sub-account identifier.
#[derive(Debug, PartialEq, Eq)]
pub struct Subaccount(pub Vec<u8>);

impl View for Subaccount {
    type V = Seq<u8>;

    open spec fn view(&self) -> Seq<u8> {
        self.0@
    }
}

impl Clone for Subaccount {
    fn clone(&self) -> (r: Self)
        ensures
            r@ == self@,
    {
        Subaccount(clone_bytes(&self.0))
    }
}

/// Copies a byte vector.
pub fn clone_bytes(v: &Vec<u8>) -> (r: Vec<u8>)
    ensures
        r@ == v@,
{
    let mut out: Vec<u8> = Vec::new();
    let n = v.len();
    for i in 0..n
        invariant
            n == v@.len(),
            out@ == v@.take(i as int),
    {
        out.push(v[i]);
        proof {
            assert(v@.take(i + 1) =~= v@.take(i as int).push(v@[i as int]));
        }
    }
    proof {
        assert(v@.take(n as int) =~= v@);
    }
    out
}

/// Copies an optional sub-account.
pub fn clone_subaccount_opt(v: &Option<Subaccount>) -> (r: Option<Subaccount>)
    ensures
        subaccount_opt_view(&r) == subaccount_opt_view(v),
{
    match v {
        None => None,
        Some(s) => Some(s.clone()),
    }
}

/// Ghost image of an optional sub-account.
pub open spec fn subaccount_opt_view(v: &Option<Subaccount>) -> Option<Seq<u8>> {
    match v {
        Some(s) => Some(s@),
        None => None,
    }
}

/// One queued outbound transfer.  Never mutated in place: a failed
/// attempt re-enqueues a copy with the retry counter advanced.
#[derive(Debug, PartialEq, Eq)]
pub struct Disbursement {
    pub canister: String,
    pub token_idf: TokenIdentifier,
    pub from_subaccount: Option<Subaccount>,
    pub to: Principal,
    pub to_subaccount: Option<Subaccount>,
    pub amount: Amount,
    pub try_num: u8,
}

/// Ghost image of a [`Disbursement`].
pub ghost struct DisbursementView {
    pub canister: Seq<char>,
    pub token_idf: Seq<char>,
    pub from_subaccount: Option<Seq<u8>>,
    pub to: Principal,
    pub to_subaccount: Option<Seq<u8>>,
    pub amount: Amount,
    pub try_num: u8,
}

impl View for Disbursement {
    type V = DisbursementView;

    open spec fn view(&self) -> DisbursementView {
        DisbursementView {
            canister: self.canister@,
            token_idf: self.token_idf@,
            from_subaccount: subaccount_opt_view(&self.from_subaccount),
            to: self.to,
            to_subaccount: subaccount_opt_view(&self.to_subaccount),
            amount: self.amount,
            try_num: self.try_num,
        }
    }
}

impl Clone for Disbursement {
    fn clone(&self) -> (r: Self)
        ensures
            r@ == self@,
    {
        Disbursement {
            canister: self.canister.clone(),
            token_idf: self.token_idf.clone(),
            from_subaccount: clone_subaccount_opt(&self.from_subaccount),
            to: self.to,
            to_subaccount: clone_subaccount_opt(&self.to_subaccount),
            amount: self.amount,
            try_num: self.try_num,
        }
    }
}

/// The ghost image of `d` with the retry counter advanced (saturating at
/// the counter's width).
pub open spec fn retried_view(d: DisbursementView) -> DisbursementView {
    DisbursementView {
        try_num: if d.try_num == u8::MAX {
            u8::MAX
        } else {
            (d.try_num + 1) as u8
        },
        ..d
    }
}

/// The sub-account counter's successor: it wraps from `u128::MAX` back
/// to `1`, never to `0`.
pub open spec fn next_subaccount_num(n: u128) -> u128 {
    if n == u128::MAX {
        1u128
    } else {
        (n + 1) as u128
    }
}

/// The counter value after `k` further draws.
pub open spec fn subaccount_num_after(start: u128, k: nat) -> u128
    decreases k,
{
    if k == 0 {
        start
    } else {
        next_subaccount_num(subaccount_num_after(start, (k - 1) as nat))
    }
}

/// Drawing `a + b` times is drawing `a` times, then `b` times.
pub proof fn lemma_subaccount_num_after_adds(start: u128, a: nat, b: nat)
    ensures
        subaccount_num_after(start, a + b) == subaccount_num_after(
            subaccount_num_after(start, a),
            b,
        ),
    decreases b,
{
    if b > 0 {
        lemma_subaccount_num_after_adds(start, a, (b - 1) as nat);
    }
}

/// After at least one draw the counter walks the cycle `1 ..= u128::MAX`
/// at unit speed: the value after `k` draws from a value `v >= 1` is
/// `v - 1 + k` reduced modulo `u128::MAX`, shifted back into `1 ..=
/// u128::MAX`.
pub proof fn lemma_subaccount_num_formula(v: u128, k: nat)
    requires
        1 <= v,
    ensures
        subaccount_num_after(v, k) == ((v - 1 + k) % (u128::MAX as int)) + 1,
    decreases k,
{
    let m = u128::MAX as int;
    if k == 0 {
        lemma_small_mod((v - 1) as nat, u128::MAX as nat);
    } else {
        lemma_subaccount_num_formula(v, (k - 1) as nat);
        let w = subaccount_num_after(v, (k - 1) as nat);
        lemma_mod_bound(v - 1 + k - 1, m);
        lemma_small_mod(1nat, u128::MAX as nat);
        lemma_mod_adds(v - 1 + k - 1, 1, m);
        if w == u128::MAX {
            lemma_div_by_self(m);
        }
    }
}

/// Law: the sub-account counter does not repeat a value within
/// `u128::MAX - 1` further draws, so `N` successive draws yield `N`
/// distinct values for any `N` up to `u128::MAX`.
pub proof fn lemma_subaccount_nums_distinct(start: u128, i: nat, j: nat)
    requires
        1 <= i < j,
        j - i < u128::MAX,
    ensures
        subaccount_num_after(start, i) != subaccount_num_after(start, j),
{
    let m = u128::MAX as int;
    let v = next_subaccount_num(start);
    assert(subaccount_num_after(start, 0nat) == start);
    assert(subaccount_num_after(start, 1) == v);
    lemma_subaccount_num_after_adds(start, 1, (i - 1) as nat);
    lemma_subaccount_num_after_adds(start, 1, (j - 1) as nat);
    lemma_subaccount_num_formula(v, (i - 1) as nat);
    lemma_subaccount_num_formula(v, (j - 1) as nat);
    assert(((v - 1 + i - 1) % m) != ((v - 1 + j - 1) % m)) by {
        lemma_mod_equivalence(v - 1 + j - 1, v - 1 + i - 1, m);
        lemma_small_mod((j - i) as nat, u128::MAX as nat);
    }
}

/// The 32-byte sub-account derived from a counter value: sixteen zero
/// bytes, then the counter in big-endian order.
pub open spec fn spec_subaccount_bytes(n: u128) -> Seq<u8> {
    Seq::new(
        32,
        |i: int|
            if i < 16 {
                0u8
            } else {
                spec_u128_to_le_bytes(n)[31 - i]
            },
    )
}

/// Law: distinct counter values give distinct sub-accounts, so the
/// sub-accounts minted by successive draws are distinct as long as the
/// counter values are.
pub proof fn lemma_subaccount_bytes_injective(a: u128, b: u128)
    requires
        a != b,
    ensures
        spec_subaccount_bytes(a) != spec_subaccount_bytes(b),
{
    lemma_auto_spec_u128_to_from_le_bytes();
    if spec_subaccount_bytes(a) == spec_subaccount_bytes(b) {
        assert(spec_u128_to_le_bytes(a) =~= spec_u128_to_le_bytes(b)) by {
            assert forall|j: int| 0 <= j < 16 implies spec_u128_to_le_bytes(a)[j]
                == spec_u128_to_le_bytes(b)[j] by {
                assert(spec_subaccount_bytes(a)[31 - j] == spec_u128_to_le_bytes(a)[j]);
                assert(spec_subaccount_bytes(b)[31 - j] == spec_u128_to_le_bytes(b)[j]);
            }
        }
        assert(false);
    }
}

/// The disbursement backlog, its failed-transfer backlog, the shared
/// single-flight lock and the sub-account counter.
pub struct DisburseService {
    pub subaccount_num: u128,
    pub disbursements_queue: Vec<Disbursement>,
    pub failed_disbursements: Vec<Disbursement>,
    pub disbursements_process_lock: bool,
}

impl Default for DisburseService {
    /// Empty backlogs, counter at zero, lock released.
    fn default() -> (s: Self)
        ensures
            s.subaccount_num == 0,
            s.disbursements_queue@.len() == 0,
            s.failed_disbursements@.len() == 0,
            !s.disbursements_process_lock,
    {
        DisburseService {
            subaccount_num: 0,
            disbursements_queue: Vec::new(),
            failed_disbursements: Vec::new(),
            disbursements_process_lock: false,
        }
    }
}

impl DisburseService {
    /// Advances the counter and returns its new value, which is never 0:
    /// from `u128::MAX` it wraps back to 1.
    pub fn get_new_subaccount_num(&mut self) -> (num: u128)
        ensures
            final(self).subaccount_num == next_subaccount_num(old(self).subaccount_num),
            num == final(self).subaccount_num,
            num >= 1,
            final(self).disbursements_queue@ == old(self).disbursements_queue@,
            final(self).failed_disbursements@ == old(self).failed_disbursements@,
            final(self).disbursements_process_lock == old(self).disbursements_process_lock,
    {
        if self.subaccount_num == u128::MAX {
            self.subaccount_num = 1;
            return 1;
        }
        self.subaccount_num = self.subaccount_num + 1;
        self.subaccount_num
    }

    /// Mints a fresh deposit sub-account from the next counter value.
    pub fn get_transaction_subaccount(&mut self) -> (sub: Subaccount)
        ensures
            final(self).subaccount_num == next_subaccount_num(old(self).subaccount_num),
            sub@ == spec_subaccount_bytes(final(self).subaccount_num),
            sub@.len() == 32,
            final(self).disbursements_queue@ == old(self).disbursements_queue@,
            final(self).failed_disbursements@ == old(self).failed_disbursements@,
            final(self).disbursements_process_lock == old(self).disbursements_process_lock,
    {
        let num = self.get_new_subaccount_num();
        let le = u128_to_le_bytes(num);
        let mut bytes: Vec<u8> = Vec::new();
        for i in 0..16usize
            invariant
                bytes@.len() == i,
                forall|k: int| 0 <= k < i ==> bytes@[k] == 0u8,
        {
            bytes.push(0u8);
        }
        for i in 0..16usize
            invariant
                le@ == spec_u128_to_le_bytes(num),
                le@.len() == 16,
                bytes@.len() == 16 + i,
                forall|k: int| 0 <= k < 16 ==> bytes@[k] == 0u8,
                forall|k: int| 16 <= k < 16 + i ==> bytes@[k] == spec_u128_to_le_bytes(num)[31 - k],
        {
            bytes.push(le[15 - i]);
        }
        proof {
            assert(bytes@ =~= spec_subaccount_bytes(num));
        }
        Subaccount(bytes)
    }

    /// Appends a transfer to the pending backlog.
    pub fn add_disbursement(&mut self, disbursement: Disbursement)
        ensures
            final(self).disbursements_queue@ == old(self).disbursements_queue@.push(disbursement),
            final(self).failed_disbursements@ == old(self).failed_disbursements@,
            final(self).disbursements_process_lock == old(self).disbursements_process_lock,
            final(self).subaccount_num == old(self).subaccount_num,
    {
        self.disbursements_queue.push(disbursement);
    }

    /// Starts one drain of the pending backlog: when the backlog is
    /// empty or another drain is in flight, nothing happens; otherwise
    /// the lock is taken and the most recently added transfer is handed
    /// out for delivery.
    pub fn begin_pending_disbursement(&mut self) -> (d: Option<Disbursement>)
        ensures
            d is None <==> old(self).disbursements_queue@.len() == 0 || old(self).disbursements_process_lock,
            d is None ==> *final(self) == *old(self),
            d matches Some(item) ==> {
                &&& item == old(self).disbursements_queue@.last()
                &&& final(self).disbursements_queue@ == old(self).disbursements_queue@.drop_last()
                &&& final(self).disbursements_process_lock
                &&& final(self).failed_disbursements@ == old(self).failed_disbursements@
                &&& final(self).subaccount_num == old(self).subaccount_num
            },
    {
        if self.disbursements_queue.len() == 0 {
            return None;
        }
        if self.disbursements_process_lock {
            return None;
        }
        self.disbursements_process_lock = true;
        self.disbursements_queue.pop()
    }

    /// Finishes a pending-backlog drain: releases the lock, and when the
    /// delivery failed re-enqueues the transfer onto the failed backlog
    /// with its retry counter advanced.
    pub fn finish_pending_disbursement(&mut self, disbursement: Disbursement, delivered: bool)
        requires
            old(self).disbursements_process_lock,
        ensures
            !final(self).disbursements_process_lock,
            final(self).disbursements_queue@ == old(self).disbursements_queue@,
            final(self).subaccount_num == old(self).subaccount_num,
            delivered ==> final(self).failed_disbursements@ == old(self).failed_disbursements@,
            !delivered ==> final(self).failed_disbursements@.len() == old(self).failed_disbursements@.len() + 1 && final(self).failed_disbursements@.drop_last()
                == old(self).failed_disbursements@ && final(self).failed_disbursements@.last()@ == retried_view(disbursement@),
    {
        if !delivered {
            let retried = Disbursement {
                try_num: if disbursement.try_num == u8::MAX {
                    u8::MAX
                } else {
                    disbursement.try_num + 1
                },
                ..disbursement
            };
            self.failed_disbursements.push(retried);
            proof {
                assert(self.failed_disbursements@.drop_last() =~= old(self).failed_disbursements@);
            }
        }
        self.disbursements_process_lock = false;
    }

    /// Starts one retry of a previously failed transfer, under the same
    /// single-flight lock as the pending drain, so at most one transfer
    /// is ever in flight.
    pub fn begin_failed_disbursement(&mut self) -> (d: Option<Disbursement>)
        ensures
            d is None <==> old(self).failed_disbursements@.len() == 0 || old(self).disbursements_process_lock,
            d is None ==> *final(self) == *old(self),
            d matches Some(item) ==> {
                &&& item == old(self).failed_disbursements@.last()
                &&& final(self).failed_disbursements@ == old(self).failed_disbursements@.drop_last()
                &&& final(self).disbursements_process_lock
                &&& final(self).disbursements_queue@ == old(self).disbursements_queue@
                &&& final(self).subaccount_num == old(self).subaccount_num
            },
    {
        if self.failed_disbursements.len() == 0 {
            return None;
        }
        if self.disbursements_process_lock {
            return None;
        }
        self.disbursements_process_lock = true;
        self.failed_disbursements.pop()
    }

    /// Finishes a failed-backlog retry: releases the lock, and when the
    /// delivery failed again re-enqueues the transfer with its retry
    /// counter advanced.
    pub fn finish_failed_disbursement(&mut self, disbursement: Disbursement, delivered: bool)
        requires
            old(self).disbursements_process_lock,
        ensures
            !final(self).disbursements_process_lock,
            final(self).disbursements_queue@ == old(self).disbursements_queue@,
            final(self).subaccount_num == old(self).subaccount_num,
            delivered ==> final(self).failed_disbursements@ == old(self).failed_disbursements@,
            !delivered ==> final(self).failed_disbursements@.len() == old(self).failed_disbursements@.len() + 1 && final(self).failed_disbursements@.drop_last()
                == old(self).failed_disbursements@ && final(self).failed_disbursements@.last()@ == retried_view(disbursement@),
    {
        self.finish_pending_disbursement(disbursement, delivered)
    }
}

} // verus!

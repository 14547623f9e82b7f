//! On-chain account state: the stake pool and the per-user deposit record,
//! with their fixed byte layouts (C layout, little-endian integers).
use vstd::prelude::*;
use vstd::bytes::{spec_u64_to_le_bytes, spec_u64_from_le_bytes, u64_from_le_bytes, u64_to_le_bytes, lemma_auto_spec_u64_to_from_le_bytes};
use vstd::slice::slice_subrange;
use crate::math::{opt_int, lp_for_deposit, collateral_for_withdraw, value_after_flows};

verus! {

broadcast use vstd::array::group_array_axioms;

/// Stake pool state — one per slab (market).
/// PDA seeds: `[b"stake_pool", slab]`.
///
/// The pool PDA also becomes the admin of the market (wrapper) program, so
/// the stake program can sign admin instructions for it.
#[derive(Debug, Clone, Copy)]
pub struct StakePool {
    /// Whether the pool is initialized (1 = yes, 0 = no)
    pub is_initialized: u8,
    /// Bump seed for the pool PDA
    pub bump: u8,
    /// Bump seed for the vault authority PDA
    pub vault_authority_bump: u8,
    /// Whether wrapper admin has been transferred to this PDA (1 = yes)
    pub admin_transferred: u8,
    /// Padding for alignment
    pub _padding: [u8; 4],
    /// The slab (market) this pool manages
    pub slab: [u8; 32],
    /// Pool creator/admin (can update config, trigger admin CPI)
    pub admin: [u8; 32],
    /// Collateral mint
    pub collateral_mint: [u8; 32],
    /// LP token mint (authority = vault authority PDA)
    pub lp_mint: [u8; 32],
    /// Vault holding the deposited collateral buffer
    pub vault: [u8; 32],
    /// Total collateral deposited by users (lifetime)
    pub total_deposited: u64,
    /// Total LP tokens in circulation
    pub total_lp_supply: u64,
    /// Cooldown period in slots before withdrawal is allowed
    pub cooldown_slots: u64,
    /// Maximum pool value accepted by deposits (0 = uncapped)
    pub deposit_cap: u64,
    /// Total collateral flushed to the market's insurance fund
    pub total_flushed: u64,
    /// Total collateral returned from insurance
    pub total_returned: u64,
    /// Total withdrawn by users (lifetime)
    pub total_withdrawn: u64,
    /// Market (wrapper) program id
    pub percolator_program: [u8; 32],
    /// Reserved for future use
    pub _reserved: [u8; 96],
}

/// Size of the stake pool account data in bytes.
pub const STAKE_POOL_SIZE: usize = 352;

/// Per-depositor state — tracks cooldown and LP amount per user.
/// PDA seeds: `[b"stake_deposit", pool, user]`.
#[derive(Debug, Clone, Copy)]
pub struct StakeDeposit {
    /// Whether this record is initialized
    pub is_initialized: u8,
    /// Bump seed for the deposit PDA
    pub bump: u8,
    /// Padding
    pub _padding: [u8; 6],
    /// The stake pool this deposit belongs to
    pub pool: [u8; 32],
    /// The user who deposited
    pub user: [u8; 32],
    /// Slot of last deposit (cooldown starts from here)
    pub last_deposit_slot: u64,
    /// LP tokens held by this user (tracked for cooldown enforcement)
    pub lp_amount: u64,
    /// Reserved for future use
    pub _reserved: [u8; 64],
}

/// Size of the deposit record account data in bytes.
pub const STAKE_DEPOSIT_SIZE: usize = 152;

/// The byte image of a stake pool: fields in declaration order, bytes and
/// byte arrays as they are, integers little-endian (C layout, no hidden
/// padding).
pub open spec fn pool_layout(p: StakePool) -> Seq<u8> {
    seq![p.is_initialized, p.bump, p.vault_authority_bump, p.admin_transferred] + p._padding@
        + p.slab@ + p.admin@ + p.collateral_mint@ + p.lp_mint@ + p.vault@ + spec_u64_to_le_bytes(
        p.total_deposited,
    ) + spec_u64_to_le_bytes(p.total_lp_supply) + spec_u64_to_le_bytes(p.cooldown_slots)
        + spec_u64_to_le_bytes(p.deposit_cap) + spec_u64_to_le_bytes(p.total_flushed)
        + spec_u64_to_le_bytes(p.total_returned) + spec_u64_to_le_bytes(p.total_withdrawn)
        + p.percolator_program@ + p._reserved@
}

/// The byte image of a deposit record, laid out like [`pool_layout`].
pub open spec fn deposit_layout(d: StakeDeposit) -> Seq<u8> {
    seq![d.is_initialized, d.bump] + d._padding@ + d.pool@ + d.user@ + spec_u64_to_le_bytes(
        d.last_deposit_slot,
    ) + spec_u64_to_le_bytes(d.lp_amount) + d._reserved@
}

/// The pool value `deposited - withdrawn - flushed + returned`, None when
/// the accounting does not balance or the sum overflows.
pub open spec fn pool_value_of(p: StakePool) -> Option<int> {
    value_after_flows(
        p.total_deposited as int,
        p.total_withdrawn as int,
        p.total_flushed as int,
        p.total_returned as int,
        u64::MAX as int,
    )
}

/// The pool value used to price deposits: a pool whose accounting does not
/// balance counts as holding nothing.
pub open spec fn deposit_pricing_value(p: StakePool) -> int {
    match pool_value_of(p) {
        Some(v) => v,
        None => 0,
    }
}

/// Copy `src` to the end of `out`.
fn append_bytes(out: &mut Vec<u8>, src: &[u8])
    ensures
        final(out)@ == old(out)@ + src@,
{
    let mut i: usize = 0;
    while i < src.len()
        invariant
            i <= src@.len(),
            out@ == old(out)@ + src@.subrange(0, i as int),
        decreases src@.len() - i,
    {
        out.push(src[i]);
        i = i + 1;
        assert(out@ =~= old(out)@ + src@.subrange(0, i as int));
    }
    assert(src@.subrange(0, src@.len() as int) =~= src@);
}

/// Copy `N` bytes starting at `off` into an array.
fn read_array<const N: usize>(data: &[u8], off: usize) -> (a: [u8; N])
    requires
        off + N <= data.len(),
    ensures
        a@ == data@.subrange(off as int, off + N),
{
    let mut a: [u8; N] = vstd::array::array_fill_for_copy_types(0u8);
    let mut i: usize = 0;
    while i < N
        invariant
            i <= N,
            off + N <= data.len(),
            a@.len() == N,
            forall|j: int| 0 <= j < i ==> a@[j] == data@[off + j],
        decreases N - i,
    {
        a[i] = data[off + i];
        i = i + 1;
    }
    assert(a@ =~= data@.subrange(off as int, off + N));
    a
}

/// Read a little-endian `u64` at `off`.
fn read_u64(data: &[u8], off: usize) -> (x: u64)
    requires
        off + 8 <= data.len(),
    ensures
        spec_u64_to_le_bytes(x) == data@.subrange(off as int, off + 8),
{
    let s = slice_subrange(data, off, off + 8);
    proof {
        lemma_auto_spec_u64_to_from_le_bytes();
    }
    u64_from_le_bytes(s)
}

/// Append a little-endian `u64`.
fn write_u64(out: &mut Vec<u8>, x: u64)
    ensures
        final(out)@ == old(out)@ + spec_u64_to_le_bytes(x),
{
    let b = u64_to_le_bytes(x);
    append_bytes(out, b.as_slice());
}

impl StakePool {
    /// A pool with every field zero (an uninitialized account).
    pub fn zeroed() -> (p: StakePool)
        ensures
            pool_layout(p) == Seq::new(STAKE_POOL_SIZE as nat, |i: int| 0u8),
            p.is_initialized == 0,
            p.admin_transferred == 0,
            p.total_deposited == 0,
            p.total_lp_supply == 0,
            p.total_withdrawn == 0,
            p.total_flushed == 0,
            p.total_returned == 0,
            p.cooldown_slots == 0,
            p.deposit_cap == 0,
    {
        let p = StakePool {
            is_initialized: 0,
            bump: 0,
            vault_authority_bump: 0,
            admin_transferred: 0,
            _padding: [0u8; 4],
            slab: [0u8; 32],
            admin: [0u8; 32],
            collateral_mint: [0u8; 32],
            lp_mint: [0u8; 32],
            vault: [0u8; 32],
            total_deposited: 0,
            total_lp_supply: 0,
            cooldown_slots: 0,
            deposit_cap: 0,
            total_flushed: 0,
            total_returned: 0,
            total_withdrawn: 0,
            percolator_program: [0u8; 32],
            _reserved: [0u8; 96],
        };
        proof {
            lemma_u64_zero_bytes();
            assert(pool_layout(p) =~= Seq::new(STAKE_POOL_SIZE as nat, |i: int| 0u8));
        }
        p
    }

    /// Decode a pool from the first [`STAKE_POOL_SIZE`] bytes of account data.
    pub fn from_bytes(data: &[u8]) -> (p: StakePool)
        requires
            data@.len() >= STAKE_POOL_SIZE,
        ensures
            pool_layout(p) == data@.subrange(0, STAKE_POOL_SIZE as int),
    {
        let p = StakePool {
            is_initialized: data[0],
            bump: data[1],
            vault_authority_bump: data[2],
            admin_transferred: data[3],
            _padding: read_array::<4>(data, 4),
            slab: read_array::<32>(data, 8),
            admin: read_array::<32>(data, 40),
            collateral_mint: read_array::<32>(data, 72),
            lp_mint: read_array::<32>(data, 104),
            vault: read_array::<32>(data, 136),
            total_deposited: read_u64(data, 168),
            total_lp_supply: read_u64(data, 176),
            cooldown_slots: read_u64(data, 184),
            deposit_cap: read_u64(data, 192),
            total_flushed: read_u64(data, 200),
            total_returned: read_u64(data, 208),
            total_withdrawn: read_u64(data, 216),
            percolator_program: read_array::<32>(data, 224),
            _reserved: read_array::<96>(data, 256),
        };
        assert(pool_layout(p) =~= data@.subrange(0, STAKE_POOL_SIZE as int));
        p
    }

    /// Encode the pool as its [`STAKE_POOL_SIZE`]-byte image.
    pub fn to_bytes(&self) -> (out: Vec<u8>)
        ensures
            out@ == pool_layout(*self),
            out@.len() == STAKE_POOL_SIZE,
    {
        let mut out: Vec<u8> = Vec::new();
        out.push(self.is_initialized);
        out.push(self.bump);
        out.push(self.vault_authority_bump);
        out.push(self.admin_transferred);
        append_bytes(&mut out, self._padding.as_slice());
        append_bytes(&mut out, self.slab.as_slice());
        append_bytes(&mut out, self.admin.as_slice());
        append_bytes(&mut out, self.collateral_mint.as_slice());
        append_bytes(&mut out, self.lp_mint.as_slice());
        append_bytes(&mut out, self.vault.as_slice());
        write_u64(&mut out, self.total_deposited);
        write_u64(&mut out, self.total_lp_supply);
        write_u64(&mut out, self.cooldown_slots);
        write_u64(&mut out, self.deposit_cap);
        write_u64(&mut out, self.total_flushed);
        write_u64(&mut out, self.total_returned);
        write_u64(&mut out, self.total_withdrawn);
        append_bytes(&mut out, self.percolator_program.as_slice());
        append_bytes(&mut out, self._reserved.as_slice());
        proof {
            lemma_auto_spec_u64_to_from_le_bytes();
        }
        assert(out@ =~= pool_layout(*self));
        out
    }

    /// Total pool value = deposited - withdrawn - flushed + returned.
    ///
    /// This equals the vault balance: flushed tokens left the vault for the
    /// insurance fund, returned tokens came back. None when the accounting
    /// does not balance (withdrawn > deposited, or flushed more than
    /// remained) or the sum overflows.
    pub fn total_pool_value(&self) -> (r: Option<u64>)
        ensures
            opt_int(r) == pool_value_of(*self),
    {
        let a = match self.total_deposited.checked_sub(self.total_withdrawn) {
            Some(v) => v,
            None => return None,
        };
        let b = match a.checked_sub(self.total_flushed) {
            Some(v) => v,
            None => return None,
        };
        b.checked_add(self.total_returned)
    }

    /// LP tokens minted for depositing `amount`, priced at the pool value
    /// (a pool whose accounting does not balance counts as holding nothing).
    pub fn calc_lp_for_deposit(&self, amount: u64) -> (r: Option<u64>)
        ensures
            opt_int(r) == lp_for_deposit(
                self.total_lp_supply as int,
                deposit_pricing_value(*self),
                amount as int,
                u64::MAX as int,
            ),
    {
        let pv = match self.total_pool_value() {
            Some(v) => v,
            None => 0,
        };
        crate::math::calc_lp_for_deposit(self.total_lp_supply, pv, amount)
    }

    /// Collateral paid for burning `lp_amount`, priced at the pool value;
    /// None when the accounting does not balance.
    pub fn calc_collateral_for_withdraw(&self, lp_amount: u64) -> (r: Option<u64>)
        ensures
            opt_int(r) == (match pool_value_of(*self) {
                Some(v) => collateral_for_withdraw(
                    self.total_lp_supply as int,
                    v,
                    lp_amount as int,
                    u64::MAX as int,
                ),
                None => None,
            }),
    {
        let pv = match self.total_pool_value() {
            Some(v) => v,
            None => return None,
        };
        crate::math::calc_collateral_for_withdraw(self.total_lp_supply, pv, lp_amount)
    }
}

impl StakeDeposit {
    /// A record with every field zero (an uninitialized account).
    pub fn zeroed() -> (d: StakeDeposit)
        ensures
            deposit_layout(d) == Seq::new(STAKE_DEPOSIT_SIZE as nat, |i: int| 0u8),
            d.is_initialized == 0,
            d.last_deposit_slot == 0,
            d.lp_amount == 0,
    {
        let d = StakeDeposit {
            is_initialized: 0,
            bump: 0,
            _padding: [0u8; 6],
            pool: [0u8; 32],
            user: [0u8; 32],
            last_deposit_slot: 0,
            lp_amount: 0,
            _reserved: [0u8; 64],
        };
        proof {
            lemma_u64_zero_bytes();
            assert(deposit_layout(d) =~= Seq::new(STAKE_DEPOSIT_SIZE as nat, |i: int| 0u8));
        }
        d
    }

    /// Decode a record from the first [`STAKE_DEPOSIT_SIZE`] bytes of account data.
    pub fn from_bytes(data: &[u8]) -> (d: StakeDeposit)
        requires
            data@.len() >= STAKE_DEPOSIT_SIZE,
        ensures
            deposit_layout(d) == data@.subrange(0, STAKE_DEPOSIT_SIZE as int),
    {
        let d = StakeDeposit {
            is_initialized: data[0],
            bump: data[1],
            _padding: read_array::<6>(data, 2),
            pool: read_array::<32>(data, 8),
            user: read_array::<32>(data, 40),
            last_deposit_slot: read_u64(data, 72),
            lp_amount: read_u64(data, 80),
            _reserved: read_array::<64>(data, 88),
        };
        assert(deposit_layout(d) =~= data@.subrange(0, STAKE_DEPOSIT_SIZE as int));
        d
    }

    /// Encode the record as its [`STAKE_DEPOSIT_SIZE`]-byte image.
    pub fn to_bytes(&self) -> (out: Vec<u8>)
        ensures
            out@ == deposit_layout(*self),
            out@.len() == STAKE_DEPOSIT_SIZE,
    {
        let mut out: Vec<u8> = Vec::new();
        out.push(self.is_initialized);
        out.push(self.bump);
        append_bytes(&mut out, self._padding.as_slice());
        append_bytes(&mut out, self.pool.as_slice());
        append_bytes(&mut out, self.user.as_slice());
        write_u64(&mut out, self.last_deposit_slot);
        write_u64(&mut out, self.lp_amount);
        append_bytes(&mut out, self._reserved.as_slice());
        proof {
            lemma_auto_spec_u64_to_from_le_bytes();
        }
        assert(out@ =~= deposit_layout(*self));
        out
    }
}

/// The image of zero is eight zero bytes.
proof fn lemma_u64_zero_bytes()
    ensures
        spec_u64_to_le_bytes(0u64) == Seq::new(8, |i: int| 0u8),
{
    vstd::bytes::spec_u64_to_le_bytes_to_open(0u64);
    assert(0u64 & 0xff == 0 && (0u64 >> 8) & 0xff == 0 && (0u64 >> 16) & 0xff == 0 && (0u64 >> 24)
        & 0xff == 0 && (0u64 >> 32) & 0xff == 0 && (0u64 >> 40) & 0xff == 0 && (0u64 >> 48) & 0xff
        == 0 && (0u64 >> 56) & 0xff == 0) by (bit_vector);
    assert(spec_u64_to_le_bytes(0u64) =~= Seq::new(8, |i: int| 0u8));
}

/// The pool image is exactly [`STAKE_POOL_SIZE`] bytes and determines the
/// pool: decoding an encoded pool gives the same pool back.
pub proof fn lemma_pool_layout_roundtrip(p: StakePool, q: StakePool)
    ensures
        pool_layout(p).len() == STAKE_POOL_SIZE,
        pool_layout(p) == pool_layout(q) ==> p == q,
{
    lemma_auto_spec_u64_to_from_le_bytes();
    if pool_layout(p) == pool_layout(q) {
        let a = pool_layout(p);
        let b = pool_layout(q);
        assert(a.subrange(4, 8) =~= p._padding@);
        assert(b.subrange(4, 8) =~= q._padding@);
        assert(a.subrange(8, 40) =~= p.slab@);
        assert(b.subrange(8, 40) =~= q.slab@);
        assert(a.subrange(40, 72) =~= p.admin@);
        assert(b.subrange(40, 72) =~= q.admin@);
        assert(a.subrange(72, 104) =~= p.collateral_mint@);
        assert(b.subrange(72, 104) =~= q.collateral_mint@);
        assert(a.subrange(104, 136) =~= p.lp_mint@);
        assert(b.subrange(104, 136) =~= q.lp_mint@);
        assert(a.subrange(136, 168) =~= p.vault@);
        assert(b.subrange(136, 168) =~= q.vault@);
        assert(a.subrange(168, 176) =~= spec_u64_to_le_bytes(p.total_deposited));
        assert(b.subrange(168, 176) =~= spec_u64_to_le_bytes(q.total_deposited));
        assert(a.subrange(176, 184) =~= spec_u64_to_le_bytes(p.total_lp_supply));
        assert(b.subrange(176, 184) =~= spec_u64_to_le_bytes(q.total_lp_supply));
        assert(a.subrange(184, 192) =~= spec_u64_to_le_bytes(p.cooldown_slots));
        assert(b.subrange(184, 192) =~= spec_u64_to_le_bytes(q.cooldown_slots));
        assert(a.subrange(192, 200) =~= spec_u64_to_le_bytes(p.deposit_cap));
        assert(b.subrange(192, 200) =~= spec_u64_to_le_bytes(q.deposit_cap));
        assert(a.subrange(200, 208) =~= spec_u64_to_le_bytes(p.total_flushed));
        assert(b.subrange(200, 208) =~= spec_u64_to_le_bytes(q.total_flushed));
        assert(a.subrange(208, 216) =~= spec_u64_to_le_bytes(p.total_returned));
        assert(b.subrange(208, 216) =~= spec_u64_to_le_bytes(q.total_returned));
        assert(a.subrange(216, 224) =~= spec_u64_to_le_bytes(p.total_withdrawn));
        assert(b.subrange(216, 224) =~= spec_u64_to_le_bytes(q.total_withdrawn));
        assert(a.subrange(224, 256) =~= p.percolator_program@);
        assert(b.subrange(224, 256) =~= q.percolator_program@);
        assert(a.subrange(256, 352) =~= p._reserved@);
        assert(b.subrange(256, 352) =~= q._reserved@);
        assert(a[0] == p.is_initialized && b[0] == q.is_initialized);
        assert(a[1] == p.bump && b[1] == q.bump);
        assert(a[2] == p.vault_authority_bump && b[2] == q.vault_authority_bump);
        assert(a[3] == p.admin_transferred && b[3] == q.admin_transferred);
        assert(p.slab == q.slab);
        assert(p._padding == q._padding);
        assert(p.admin == q.admin);
        assert(p.collateral_mint == q.collateral_mint);
        assert(p.lp_mint == q.lp_mint);
        assert(p.vault == q.vault);
        assert(p.percolator_program == q.percolator_program);
        assert(p._reserved == q._reserved);
        assert(spec_u64_from_le_bytes(spec_u64_to_le_bytes(p.total_deposited)) == p.total_deposited);
        assert(spec_u64_from_le_bytes(spec_u64_to_le_bytes(q.total_deposited)) == q.total_deposited);
        assert(p.total_deposited == q.total_deposited);
    }
}

/// The record image is exactly [`STAKE_DEPOSIT_SIZE`] bytes and determines
/// the record: decoding an encoded record gives the same record back.
pub proof fn lemma_deposit_layout_roundtrip(d: StakeDeposit, e: StakeDeposit)
    ensures
        deposit_layout(d).len() == STAKE_DEPOSIT_SIZE,
        deposit_layout(d) == deposit_layout(e) ==> d == e,
{
    lemma_auto_spec_u64_to_from_le_bytes();
    if deposit_layout(d) == deposit_layout(e) {
        let a = deposit_layout(d);
        let b = deposit_layout(e);
        assert(a.subrange(2, 8) =~= d._padding@);
        assert(b.subrange(2, 8) =~= e._padding@);
        assert(a.subrange(8, 40) =~= d.pool@);
        assert(b.subrange(8, 40) =~= e.pool@);
        assert(a.subrange(40, 72) =~= d.user@);
        assert(b.subrange(40, 72) =~= e.user@);
        assert(a.subrange(72, 80) =~= spec_u64_to_le_bytes(d.last_deposit_slot));
        assert(b.subrange(72, 80) =~= spec_u64_to_le_bytes(e.last_deposit_slot));
        assert(a.subrange(80, 88) =~= spec_u64_to_le_bytes(d.lp_amount));
        assert(b.subrange(80, 88) =~= spec_u64_to_le_bytes(e.lp_amount));
        assert(a.subrange(88, 152) =~= d._reserved@);
        assert(b.subrange(88, 152) =~= e._reserved@);
        assert(a[0] == d.is_initialized && b[0] == e.is_initialized);
        assert(a[1] == d.bump && b[1] == e.bump);
        assert(d._padding == e._padding);
        assert(d.pool == e.pool);
        assert(d.user == e.user);
        assert(d._reserved == e._reserved);
        assert(spec_u64_from_le_bytes(spec_u64_to_le_bytes(d.lp_amount)) == d.lp_amount);
        assert(spec_u64_from_le_bytes(spec_u64_to_le_bytes(e.lp_amount)) == e.lp_amount);
        assert(spec_u64_from_le_bytes(spec_u64_to_le_bytes(d.last_deposit_slot)) == d.last_deposit_slot);
        assert(spec_u64_from_le_bytes(spec_u64_to_le_bytes(e.last_deposit_slot)) == e.last_deposit_slot);
    }
}

/// Where each field of a pool lies in its 352-byte image (C layout): the
/// flags at bytes 0..4, the keys at 8, 40, 72, 104 and 136, the seven
/// totals and settings as little-endian `u64` from 168 to 224 in declaration
/// order, the market program at 224 and the reserved bytes from 256.
pub proof fn lemma_pool_field_offsets(p: StakePool)
    ensures
        ({
            let b = pool_layout(p);
            &&& b.len() == 352
            &&& b[0] == p.is_initialized
            &&& b[1] == p.bump
            &&& b[2] == p.vault_authority_bump
            &&& b[3] == p.admin_transferred
            &&& b.subrange(8, 40) == p.slab@
            &&& b.subrange(40, 72) == p.admin@
            &&& b.subrange(72, 104) == p.collateral_mint@
            &&& b.subrange(104, 136) == p.lp_mint@
            &&& b.subrange(136, 168) == p.vault@
            &&& b.subrange(168, 176) == spec_u64_to_le_bytes(p.total_deposited)
            &&& b.subrange(176, 184) == spec_u64_to_le_bytes(p.total_lp_supply)
            &&& b.subrange(184, 192) == spec_u64_to_le_bytes(p.cooldown_slots)
            &&& b.subrange(192, 200) == spec_u64_to_le_bytes(p.deposit_cap)
            &&& b.subrange(200, 208) == spec_u64_to_le_bytes(p.total_flushed)
            &&& b.subrange(208, 216) == spec_u64_to_le_bytes(p.total_returned)
            &&& b.subrange(216, 224) == spec_u64_to_le_bytes(p.total_withdrawn)
            &&& b.subrange(224, 256) == p.percolator_program@
            &&& b.subrange(256, 352) == p._reserved@
        }),
{
    lemma_auto_spec_u64_to_from_le_bytes();
    let a = pool_layout(p);
    assert(a.subrange(8, 40) =~= p.slab@);
    assert(a.subrange(40, 72) =~= p.admin@);
    assert(a.subrange(72, 104) =~= p.collateral_mint@);
    assert(a.subrange(104, 136) =~= p.lp_mint@);
    assert(a.subrange(136, 168) =~= p.vault@);
    assert(a.subrange(168, 176) =~= spec_u64_to_le_bytes(p.total_deposited));
    assert(a.subrange(176, 184) =~= spec_u64_to_le_bytes(p.total_lp_supply));
    assert(a.subrange(184, 192) =~= spec_u64_to_le_bytes(p.cooldown_slots));
    assert(a.subrange(192, 200) =~= spec_u64_to_le_bytes(p.deposit_cap));
    assert(a.subrange(200, 208) =~= spec_u64_to_le_bytes(p.total_flushed));
    assert(a.subrange(208, 216) =~= spec_u64_to_le_bytes(p.total_returned));
    assert(a.subrange(216, 224) =~= spec_u64_to_le_bytes(p.total_withdrawn));
    assert(a.subrange(224, 256) =~= p.percolator_program@);
    assert(a.subrange(256, 352) =~= p._reserved@);
}

/// Where each field of a deposit record lies in its 152-byte image: the
/// flag and bump at bytes 0 and 1, the pool and user keys at 8 and 40, the
/// last deposit slot and the LP amount as little-endian `u64` at 72 and 80,
/// and the reserved bytes from 88.
pub proof fn lemma_deposit_field_offsets(d: StakeDeposit)
    ensures
        ({
            let b = deposit_layout(d);
            &&& b.len() == 152
            &&& b[0] == d.is_initialized
            &&& b[1] == d.bump
            &&& b.subrange(8, 40) == d.pool@
            &&& b.subrange(40, 72) == d.user@
            &&& b.subrange(72, 80) == spec_u64_to_le_bytes(d.last_deposit_slot)
            &&& b.subrange(80, 88) == spec_u64_to_le_bytes(d.lp_amount)
            &&& b.subrange(88, 152) == d._reserved@
        }),
{
    lemma_auto_spec_u64_to_from_le_bytes();
    let a = deposit_layout(d);
    assert(a.subrange(8, 40) =~= d.pool@);
    assert(a.subrange(40, 72) =~= d.user@);
    assert(a.subrange(72, 80) =~= spec_u64_to_le_bytes(d.last_deposit_slot));
    assert(a.subrange(80, 88) =~= spec_u64_to_le_bytes(d.lp_amount));
    assert(a.subrange(88, 152) =~= d._reserved@);
}

} // verus!

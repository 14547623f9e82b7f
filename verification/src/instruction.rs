//! Instructions of the stake program and their wire format: a one-byte tag
//! followed by the fields, integers little-endian, keys as 32 raw bytes.
//! Bytes after the fields are ignored.
use vstd::prelude::*;
use vstd::bytes::*;
use vstd::slice::slice_subrange;
use crate::error::ProcessError;

verus! {

broadcast use vstd::array::group_array_axioms;

/// Instructions of the stake program (PDA admin architecture).
#[derive(Debug)]
pub enum StakeInstruction {
    /// 0: Initialize a stake pool for a slab (market): creates the pool PDA,
    /// the LP mint and the collateral vault.
    InitPool { cooldown_slots: u64, deposit_cap: u64 },
    /// 1: Deposit collateral into the stake vault; mints LP pro rata.
    Deposit { amount: u64 },
    /// 2: Withdraw collateral by burning LP tokens, after the cooldown.
    Withdraw { lp_amount: u64 },
    /// 3: Move vault collateral to the market's insurance fund (admin only).
    FlushToInsurance { amount: u64 },
    /// 4: Admin updates the pool configuration.
    UpdateConfig { new_cooldown_slots: Option<u64>, new_deposit_cap: Option<u64> },
    /// 5: One-time transfer of the market admin to the pool PDA.
    TransferAdmin,
    /// 6: Forward SetOracleAuthority to the market, signed by the pool PDA.
    AdminSetOracleAuthority { new_authority: [u8; 32] },
    /// 7: Forward SetRiskThreshold to the market.
    AdminSetRiskThreshold { new_threshold: u128 },
    /// 8: Forward SetMaintenanceFee to the market.
    AdminSetMaintenanceFee { new_fee: u128 },
    /// 9: Forward ResolveMarket to the market.
    AdminResolveMarket,
    /// 10: Withdraw insurance from a resolved market back into the vault.
    AdminWithdrawInsurance { amount: u64 },
    /// 11: Forward SetInsuranceWithdrawPolicy to the market.
    AdminSetInsurancePolicy {
        authority: [u8; 32],
        min_withdraw_base: u64,
        max_withdraw_bps: u16,
        cooldown_slots: u64,
    },
}

/// The little-endian `u64` at `off` of `s`.
pub open spec fn le_u64_at(s: Seq<u8>, off: int) -> u64 {
    spec_u64_from_le_bytes(s.subrange(off, off + 8))
}

/// Whether `data` is long enough for the instruction its tag names (and
/// the tag names one).
pub open spec fn decodable(data: Seq<u8>) -> bool {
    data.len() >= 1 && {
        let tag = data[0];
        let n = data.len() - 1;
        if tag == 0 {
            n >= 16
        } else if tag == 1 || tag == 2 || tag == 3 || tag == 10 {
            n >= 8
        } else if tag == 4 {
            n >= 18
        } else if tag == 5 || tag == 9 {
            true
        } else if tag == 6 {
            n >= 32
        } else if tag == 7 || tag == 8 {
            n >= 16
        } else if tag == 11 {
            n >= 50
        } else {
            false
        }
    }
}

/// Whether `data` encodes `ix`: the tag matches the variant and each field
/// is read from its position after the tag.
pub open spec fn decodes_to(data: Seq<u8>, ix: StakeInstruction) -> bool {
    data.len() >= 1 && match ix {
        StakeInstruction::InitPool { cooldown_slots, deposit_cap } => data[0] == 0 && data.len()
            >= 17 && cooldown_slots == le_u64_at(data, 1) && deposit_cap == le_u64_at(data, 9),
        StakeInstruction::Deposit { amount } => data[0] == 1 && data.len() >= 9 && amount
            == le_u64_at(data, 1),
        StakeInstruction::Withdraw { lp_amount } => data[0] == 2 && data.len() >= 9 && lp_amount
            == le_u64_at(data, 1),
        StakeInstruction::FlushToInsurance { amount } => data[0] == 3 && data.len() >= 9 && amount
            == le_u64_at(data, 1),
        StakeInstruction::UpdateConfig { new_cooldown_slots, new_deposit_cap } => data[0] == 4
            && data.len() >= 19 && new_cooldown_slots == (if data[1] != 0 {
            Some(le_u64_at(data, 2))
        } else {
            None
        }) && new_deposit_cap == (if data[10] != 0 {
            Some(le_u64_at(data, 11))
        } else {
            None
        }),
        StakeInstruction::TransferAdmin => data[0] == 5,
        StakeInstruction::AdminSetOracleAuthority { new_authority } => data[0] == 6 && data.len()
            >= 33 && new_authority@ == data.subrange(1, 33),
        StakeInstruction::AdminSetRiskThreshold { new_threshold } => data[0] == 7 && data.len()
            >= 17 && new_threshold == spec_u128_from_le_bytes(data.subrange(1, 17)),
        StakeInstruction::AdminSetMaintenanceFee { new_fee } => data[0] == 8 && data.len() >= 17
            && new_fee == spec_u128_from_le_bytes(data.subrange(1, 17)),
        StakeInstruction::AdminResolveMarket => data[0] == 9,
        StakeInstruction::AdminWithdrawInsurance { amount } => data[0] == 10 && data.len() >= 9
            && amount == le_u64_at(data, 1),
        StakeInstruction::AdminSetInsurancePolicy {
            authority,
            min_withdraw_base,
            max_withdraw_bps,
            cooldown_slots,
        } => data[0] == 11 && data.len() >= 51 && authority@ == data.subrange(1, 33)
            && min_withdraw_base == le_u64_at(data, 33) && max_withdraw_bps
            == spec_u16_from_le_bytes(data.subrange(41, 43)) && cooldown_slots == le_u64_at(
            data,
            43,
        ),
    }
}

/// Read `N` bytes starting at `off` into an array.
fn key_at<const N: usize>(data: &[u8], off: usize) -> (a: [u8; N])
    requires
        off + N <= data.len(),
    ensures
        a@ == data@.subrange(off as int, off + N),
{
    let mut a: [u8; N] = vstd::array::array_fill_for_copy_types(0u8);
    let mut i: usize = 0;
    while i < N
        invariant
            i <= N,
            off + N <= data.len(),
            a@.len() == N,
            forall|j: int| 0 <= j < i ==> a@[j] == data@[off + j],
        decreases N - i,
    {
        a[i] = data[off + i];
        i = i + 1;
    }
    assert(a@ =~= data@.subrange(off as int, off + N));
    a
}

/// Read the little-endian `u64` at `off`.
fn u64_at(data: &[u8], off: usize) -> (x: u64)
    requires
        off + 8 <= data.len(),
    ensures
        x == le_u64_at(data@, off as int),
{
    u64_from_le_bytes(slice_subrange(data, off, off + 8))
}

impl StakeInstruction {
    /// Decode instruction data; `InvalidInstructionData` when the data is
    /// empty, the tag is unknown, or the data is too short for its fields.
    pub fn unpack(data: &[u8]) -> (r: Result<StakeInstruction, ProcessError>)
        ensures
            r is Ok <==> decodable(data@),
            r matches Ok(ix) ==> decodes_to(data@, ix),
            r matches Err(e) ==> e == ProcessError::InvalidInstructionData,
    {
        if data.len() == 0 {
            return Err(ProcessError::InvalidInstructionData);
        }
        let tag = data[0];
        let n = data.len() - 1;
        if tag == 0 {
            if n < 16 {
                return Err(ProcessError::InvalidInstructionData);
            }
            Ok(StakeInstruction::InitPool { cooldown_slots: u64_at(data, 1), deposit_cap: u64_at(data, 9) })
        } else if tag == 1 {
            if n < 8 {
                return Err(ProcessError::InvalidInstructionData);
            }
            Ok(StakeInstruction::Deposit { amount: u64_at(data, 1) })
        } else if tag == 2 {
            if n < 8 {
                return Err(ProcessError::InvalidInstructionData);
            }
            Ok(StakeInstruction::Withdraw { lp_amount: u64_at(data, 1) })
        } else if tag == 3 {
            if n < 8 {
                return Err(ProcessError::InvalidInstructionData);
            }
            Ok(StakeInstruction::FlushToInsurance { amount: u64_at(data, 1) })
        } else if tag == 4 {
            if n < 18 {
                return Err(ProcessError::InvalidInstructionData);
            }
            let has_cooldown = data[1] != 0;
            let cooldown = u64_at(data, 2);
            let has_cap = data[10] != 0;
            let cap = u64_at(data, 11);
            Ok(
                StakeInstruction::UpdateConfig {
                    new_cooldown_slots: if has_cooldown {
                        Some(cooldown)
                    } else {
                        None
                    },
                    new_deposit_cap: if has_cap {
                        Some(cap)
                    } else {
                        None
                    },
                },
            )
        } else if tag == 5 {
            Ok(StakeInstruction::TransferAdmin)
        } else if tag == 6 {
            if n < 32 {
                return Err(ProcessError::InvalidInstructionData);
            }
            Ok(StakeInstruction::AdminSetOracleAuthority { new_authority: key_at::<32>(data, 1) })
        } else if tag == 7 {
            if n < 16 {
                return Err(ProcessError::InvalidInstructionData);
            }
            let t = u128_from_le_bytes(slice_subrange(data, 1, 17));
            Ok(StakeInstruction::AdminSetRiskThreshold { new_threshold: t })
        } else if tag == 8 {
            if n < 16 {
                return Err(ProcessError::InvalidInstructionData);
            }
            let f = u128_from_le_bytes(slice_subrange(data, 1, 17));
            Ok(StakeInstruction::AdminSetMaintenanceFee { new_fee: f })
        } else if tag == 9 {
            Ok(StakeInstruction::AdminResolveMarket)
        } else if tag == 10 {
            if n < 8 {
                return Err(ProcessError::InvalidInstructionData);
            }
            Ok(StakeInstruction::AdminWithdrawInsurance { amount: u64_at(data, 1) })
        } else if tag == 11 {
            if n < 50 {
                return Err(ProcessError::InvalidInstructionData);
            }
            let authority = key_at::<32>(data, 1);
            let min_withdraw_base = u64_at(data, 33);
            let max_withdraw_bps = u16_from_le_bytes(slice_subrange(data, 41, 43));
            let cooldown_slots = u64_at(data, 43);
            Ok(
                StakeInstruction::AdminSetInsurancePolicy {
                    authority,
                    min_withdraw_base,
                    max_withdraw_bps,
                    cooldown_slots,
                },
            )
        } else {
            Err(ProcessError::InvalidInstructionData)
        }
    }
}

/// Decoding is a function of the data: no byte string encodes two
/// different instructions.
pub proof fn lemma_decoding_unique(data: Seq<u8>, a: StakeInstruction, b: StakeInstruction)
    requires
        decodes_to(data, a),
        decodes_to(data, b),
    ensures
        a == b,
{
    match a {
        StakeInstruction::AdminSetOracleAuthority { new_authority } => {
            if let StakeInstruction::AdminSetOracleAuthority { new_authority: k } = b {
                assert(new_authority == k);
            }
        },
        StakeInstruction::AdminSetInsurancePolicy { authority, .. } => {
            if let StakeInstruction::AdminSetInsurancePolicy { authority: k, .. } = b {
                assert(authority == k);
            }
        },
        _ => {},
    }
}

/// The wire format of each instruction: the one-byte tag (0 to 11 in
/// declaration order) followed by its fields, integers little-endian, keys
/// as 32 raw bytes, and for UpdateConfig a presence flag byte before each
/// optional `u64` (nonzero meaning present). Every such encoding decodes,
/// and to exactly the instruction it encodes.
pub proof fn lemma_wire_format(
    a: u64,
    b: u64,
    c: u64,
    f1: u8,
    f2: u8,
    key: [u8; 32],
    big: u128,
    bps: u16,
)
    ensures
        ({
            let d = seq![0u8] + spec_u64_to_le_bytes(a) + spec_u64_to_le_bytes(b);
            decodable(d) && decodes_to(d, StakeInstruction::InitPool { cooldown_slots: a, deposit_cap: b })
        }),
        ({
            let d = seq![1u8] + spec_u64_to_le_bytes(a);
            decodable(d) && decodes_to(d, StakeInstruction::Deposit { amount: a })
        }),
        ({
            let d = seq![2u8] + spec_u64_to_le_bytes(a);
            decodable(d) && decodes_to(d, StakeInstruction::Withdraw { lp_amount: a })
        }),
        ({
            let d = seq![3u8] + spec_u64_to_le_bytes(a);
            decodable(d) && decodes_to(d, StakeInstruction::FlushToInsurance { amount: a })
        }),
        ({
            let d = seq![4u8, f1] + spec_u64_to_le_bytes(a) + seq![f2] + spec_u64_to_le_bytes(b);
            decodable(d) && decodes_to(
                d,
                StakeInstruction::UpdateConfig {
                    new_cooldown_slots: if f1 != 0 { Some(a) } else { None },
                    new_deposit_cap: if f2 != 0 { Some(b) } else { None },
                },
            )
        }),
        decodable(seq![5u8]) && decodes_to(seq![5u8], StakeInstruction::TransferAdmin),
        ({
            let d = seq![6u8] + key@;
            decodable(d) && decodes_to(d, StakeInstruction::AdminSetOracleAuthority { new_authority: key })
        }),
        ({
            let d = seq![7u8] + spec_u128_to_le_bytes(big);
            decodable(d) && decodes_to(d, StakeInstruction::AdminSetRiskThreshold { new_threshold: big })
        }),
        ({
            let d = seq![8u8] + spec_u128_to_le_bytes(big);
            decodable(d) && decodes_to(d, StakeInstruction::AdminSetMaintenanceFee { new_fee: big })
        }),
        decodable(seq![9u8]) && decodes_to(seq![9u8], StakeInstruction::AdminResolveMarket),
        ({
            let d = seq![10u8] + spec_u64_to_le_bytes(a);
            decodable(d) && decodes_to(d, StakeInstruction::AdminWithdrawInsurance { amount: a })
        }),
        ({
            let d = seq![11u8] + key@ + spec_u64_to_le_bytes(a) + spec_u16_to_le_bytes(bps)
                + spec_u64_to_le_bytes(c);
            decodable(d) && decodes_to(
                d,
                StakeInstruction::AdminSetInsurancePolicy {
                    authority: key,
                    min_withdraw_base: a,
                    max_withdraw_bps: bps,
                    cooldown_slots: c,
                },
            )
        }),
{
    lemma_auto_spec_u64_to_from_le_bytes();
    lemma_auto_spec_u128_to_from_le_bytes();
    lemma_auto_spec_u16_to_from_le_bytes();
    let la = spec_u64_to_le_bytes(a);
    let lb = spec_u64_to_le_bytes(b);
    let lc = spec_u64_to_le_bytes(c);
    let d0 = seq![0u8] + la + lb;
    assert(d0.subrange(1, 9) =~= la);
    assert(d0.subrange(9, 17) =~= lb);
    let d1 = seq![1u8] + la;
    assert(d1.subrange(1, 9) =~= la);
    let d2 = seq![2u8] + la;
    assert(d2.subrange(1, 9) =~= la);
    let d3 = seq![3u8] + la;
    assert(d3.subrange(1, 9) =~= la);
    let d4 = seq![4u8, f1] + la + seq![f2] + lb;
    assert(d4.subrange(2, 10) =~= la);
    assert(d4.subrange(11, 19) =~= lb);
    assert(d4[1] == f1 && d4[10] == f2);
    let d6 = seq![6u8] + key@;
    assert(d6.subrange(1, 33) =~= key@);
    let lt = spec_u128_to_le_bytes(big);
    let d7 = seq![7u8] + lt;
    assert(d7.subrange(1, 17) =~= lt);
    let d8 = seq![8u8] + lt;
    assert(d8.subrange(1, 17) =~= lt);
    let d10 = seq![10u8] + la;
    assert(d10.subrange(1, 9) =~= la);
    let lbps = spec_u16_to_le_bytes(bps);
    let d11 = seq![11u8] + key@ + la + lbps + lc;
    assert(d11.subrange(1, 33) =~= key@);
    assert(d11.subrange(33, 41) =~= la);
    assert(d11.subrange(41, 43) =~= lbps);
    assert(d11.subrange(43, 51) =~= lc);
}

/// Which data decodes: a known tag (0 to 11) followed by at least the bytes
/// of its fields, 16, 8, 8, 8, 18, 0, 32, 16, 16, 0, 8 and 50 by tag; empty
/// data, unknown tags and short data are refused.
pub proof fn lemma_decodable_lengths(data: Seq<u8>)
    ensures
        decodable(data) <==> data.len() >= 1 && data[0] <= 11 && data.len() >= 1 + seq![
            16int,
            8,
            8,
            8,
            18,
            0,
            32,
            16,
            16,
            0,
            8,
            50,
        ][data[0] as int],
{
}

} // verus!

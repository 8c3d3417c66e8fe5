use vstd::prelude::*;

use crate::error::FusionError;
use crate::pricing::{lemma_muldiv_floor_le, mul_div_floor, spec_muldiv_floor};
use crate::{BASE_1E2, BASE_1E5};

verus! {

/// The fee charged on `dst_amount` at `bp` basis points of `BASE_1E5`,
/// rounded down so that no more than the entitled fee is ever taken.
pub open spec fn spec_base_fee(dst_amount: int, bp: int) -> int {
    spec_muldiv_floor(dst_amount, bp, BASE_1E5 as int)
}

/// The protocol's share of positive slippage: what the taker pays above the
/// maker's estimate, at `surplus_bp` basis points of `BASE_1E2`, rounded down.
pub open spec fn spec_surplus_cut(actual: int, estimated: int, surplus_bp: int) -> int {
    if actual > estimated {
        spec_muldiv_floor(actual - estimated, surplus_bp, BASE_1E2 as int)
    } else {
        0
    }
}

/// The three-way split of `dst_amount`: the split succeeds exactly when the
/// two base fees fit inside the gross amount, and then the protocol fee, the
/// integrator fee and the net maker amount sum to the gross amount exactly.
pub open spec fn spec_get_fee_amounts(
    integrator_fee: u16,
    protocol_fee: u16,
    surplus_percentage: u8,
    dst_amount: u64,
    estimated_dst_amount: u64,
) -> Result<(u64, u64, u64), FusionError> {
    let integrator_fee_amount = spec_base_fee(dst_amount as int, integrator_fee as int);
    let base_protocol_fee_amount = spec_base_fee(dst_amount as int, protocol_fee as int);
    if dst_amount - base_protocol_fee_amount < integrator_fee_amount {
        Err(FusionError::IntegerOverflow)
    } else {
        let actual = dst_amount - base_protocol_fee_amount - integrator_fee_amount;
        let protocol_fee_amount = base_protocol_fee_amount + spec_surplus_cut(
            actual,
            estimated_dst_amount as int,
            surplus_percentage as int,
        );
        Ok(
            (
                protocol_fee_amount as u64,
                integrator_fee_amount as u64,
                (dst_amount - integrator_fee_amount - protocol_fee_amount) as u64,
            ),
        )
    }
}

/// Splits a gross counter-amount into the protocol fee, the integrator fee
/// and the net amount owed to the maker, capturing part of any positive
/// slippage above `estimated_dst_amount` for the protocol.
///
/// Conservation: on success the three parts sum to `dst_amount` exactly; no
/// value is created or destroyed.
pub fn get_fee_amounts(
    integrator_fee: u16,
    protocol_fee: u16,
    surplus_percentage: u8,
    dst_amount: u64,
    estimated_dst_amount: u64,
) -> (r: Result<(u64, u64, u64), FusionError>)
    requires
        surplus_percentage <= BASE_1E2,
    ensures
        r == spec_get_fee_amounts(
            integrator_fee,
            protocol_fee,
            surplus_percentage,
            dst_amount,
            estimated_dst_amount,
        ),
        r matches Ok((protocol_fee_amount, integrator_fee_amount, maker_dst_amount))
            ==> protocol_fee_amount + integrator_fee_amount + maker_dst_amount == dst_amount,
{
    proof {
        lemma_muldiv_floor_le(dst_amount as int, integrator_fee as int, BASE_1E5 as int);
        lemma_muldiv_floor_le(dst_amount as int, protocol_fee as int, BASE_1E5 as int);
    }
    let integrator_fee_amount = match mul_div_floor(dst_amount, integrator_fee as u64, BASE_1E5) {
        Some(v) => v,
        None => {
            return Err(FusionError::IntegerOverflow);
        },
    };
    let mut protocol_fee_amount = match mul_div_floor(dst_amount, protocol_fee as u64, BASE_1E5) {
        Some(v) => v,
        None => {
            return Err(FusionError::IntegerOverflow);
        },
    };

    let actual_dst_amount = match (dst_amount - protocol_fee_amount).checked_sub(
        integrator_fee_amount,
    ) {
        Some(v) => v,
        None => {
            return Err(FusionError::IntegerOverflow);
        },
    };

    if actual_dst_amount > estimated_dst_amount {
        proof {
            lemma_muldiv_floor_le(
                actual_dst_amount - estimated_dst_amount,
                surplus_percentage as int,
                BASE_1E2 as int,
            );
        }
        let surplus_fee = match mul_div_floor(
            actual_dst_amount - estimated_dst_amount,
            surplus_percentage as u64,
            BASE_1E2,
        ) {
            Some(v) => v,
            None => {
                return Err(FusionError::IntegerOverflow);
            },
        };
        protocol_fee_amount = protocol_fee_amount + surplus_fee;
    }

    Ok(
        (
            protocol_fee_amount,
            integrator_fee_amount,
            dst_amount - integrator_fee_amount - protocol_fee_amount,
        ),
    )
}

} // verus!

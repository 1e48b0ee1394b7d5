//! The rent schedule and the rent oracle capability.
//!
//! A backend that knows its rent schedule can answer the minimum balance
//! that exempts an account of a given data length from rent. The value
//! has a floor of 1 and saturates at the largest representable balance.

use vstd::prelude::*;
use crate::capability::Client;

verus! {

/// Bytes of per-account storage overhead charged on top of the data.
pub const ACCOUNT_STORAGE_OVERHEAD: u64 = 128;

/// A rent schedule: what one byte-year of storage costs, and how many
/// years of rent an exempt account must cover.
#[derive(Clone, Copy, PartialEq, Eq, Structural, Debug)]
pub struct Rent {
    /// Cost of one byte-year of storage, in balance units.
    pub lamports_per_byte_year: u64,
    /// Whole years of rent an exempt account must be able to pay.
    pub exemption_threshold_years: u64,
}

/// The minimum rent-exempt balance for `data_len` data bytes: the full
/// storage cost over the exemption threshold, saturated at `u64::MAX`,
/// with a floor of 1.
pub open spec fn spec_minimum_balance(r: Rent, data_len: int) -> int {
    let raw = (ACCOUNT_STORAGE_OVERHEAD + data_len) * r.lamports_per_byte_year
        * r.exemption_threshold_years;
    let sat = if raw > u64::MAX { u64::MAX as int } else { raw };
    if sat < 1 {
        1
    } else {
        sat
    }
}

impl Rent {
    /// The minimum balance exempting an account of `data_len` data bytes
    /// from rent.
    pub fn minimum_balance(&self, data_len: usize) -> (r: u64)
        ensures
            r == spec_minimum_balance(*self, data_len as int),
    {
        if self.lamports_per_byte_year == 0 || self.exemption_threshold_years == 0 {
            proof {
                assert((ACCOUNT_STORAGE_OVERHEAD + data_len) * self.lamports_per_byte_year
                    * self.exemption_threshold_years == 0) by (nonlinear_arith)
                    requires
                        self.lamports_per_byte_year == 0 || self.exemption_threshold_years == 0,
                        data_len >= 0,
                ;
            }
            return 1;
        }
        let bytes: u128 = ACCOUNT_STORAGE_OVERHEAD as u128 + data_len as u128;
        let with_cost = match bytes.checked_mul(self.lamports_per_byte_year as u128) {
            Some(p) => p,
            None => {
                proof {
                    lemma_saturated_product(
                        bytes as int,
                        self.lamports_per_byte_year as int,
                        self.exemption_threshold_years as int,
                    );
                }
                return u64::MAX;
            },
        };
        let total = match with_cost.checked_mul(self.exemption_threshold_years as u128) {
            Some(p) => p,
            None => {
                proof {
                    lemma_saturated_factor(
                        bytes as int,
                        self.lamports_per_byte_year as int,
                        self.exemption_threshold_years as int,
                    );
                }
                return u64::MAX;
            },
        };
        if total > u64::MAX as u128 {
            return u64::MAX;
        }
        if total < 1 {
            1
        } else {
            total as u64
        }
    }
}

/// If the first factor pair already exceeds `u128::MAX`, the full
/// product exceeds `u64::MAX`.
proof fn lemma_saturated_product(bytes: int, cost: int, years: int)
    requires
        bytes >= 1,
        cost >= 1,
        years >= 1,
        bytes * cost > u128::MAX,
    ensures
        bytes * cost * years > u64::MAX,
{
    assert(bytes * cost * years >= bytes * cost) by (nonlinear_arith)
        requires
            bytes * cost >= 0,
            years >= 1,
    ;
}

/// If multiplying the partial product by the years overflows, the full
/// product exceeds `u64::MAX`.
proof fn lemma_saturated_factor(bytes: int, cost: int, years: int)
    requires
        bytes >= 1,
        cost >= 1,
        years >= 1,
        bytes * cost <= u128::MAX,
        (bytes * cost) * years > u128::MAX,
    ensures
        bytes * cost * years > u64::MAX,
{
}

/// A backend that knows its rent schedule.
pub trait HasRent: Client {
    /// The backend's rent schedule, as an abstract observation.
    spec fn rent_schedule(&self) -> Rent;

    /// Returns the rent schedule.
    fn rent(&self) -> (r: Rent)
        ensures
            r == self.rent_schedule(),
    ;

    /// The minimum balance exempting an account of `data_len` data bytes
    /// from rent, computed from the backend's own schedule.
    fn minimum_balance_for_rent_exemption(&self, data_len: usize) -> (r: u64)
        ensures
            r == spec_minimum_balance(self.rent_schedule(), data_len as int),
    {
        self.rent().minimum_balance(data_len)
    }
}

} // verus!

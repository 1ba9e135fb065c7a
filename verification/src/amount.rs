use vstd::prelude::*;

use crate::codec::{decimal, push_decimal, CanonicalJson};
use crate::error::{outcome, policy_error, PolicyRule, Refusal, VertexError, VertexResult};

verus! {

/// The largest number of units that any single amount, balance or supply may hold.
pub const MAX_LEDGER_UNITS: u128 = 100_000_000_000_000;

/// One hundred percent, in basis points.
pub const MAX_BPS: u16 = 10_000;

/// A quantity of the ledger's asset, never above `MAX_LEDGER_UNITS`.
#[derive(Copy, Clone, Debug, Default, PartialEq, Eq, PartialOrd, Ord, Hash)]
pub struct Amount(u128);

/// A fraction in basis points, never above `MAX_BPS`.
#[derive(Copy, Clone, Debug, PartialEq, Eq, PartialOrd, Ord, Hash)]
pub struct Bps(u16);

impl Amount {
    /// The number of units held.
    pub closed spec fn spec_units(self) -> nat {
        self.0 as nat
    }

    /// An amount is well formed when it does not exceed the ledger maximum.
    pub closed spec fn wf(self) -> bool {
        self.0 <= MAX_LEDGER_UNITS
    }

    /// The amount of `units` units, as a specification value.
    pub closed spec fn of(units: nat) -> Amount {
        Amount(units as u128)
    }

    /// An amount built from units within range holds exactly those units.
    pub proof fn lemma_of(units: nat)
        requires
            units <= MAX_LEDGER_UNITS,
        ensures
            Amount::of(units).spec_units() == units,
            Amount::of(units).wf(),
    {
    }

    /// An amount is the amount of its own units.
    pub proof fn lemma_of_units(a: Amount)
        ensures
            Amount::of(a.spec_units()) == a,
    {
    }

    /// Builds an amount, refusing values above the ledger maximum.
    pub fn new(value: u128) -> (r: VertexResult<Amount>)
        ensures
            value <= MAX_LEDGER_UNITS ==> r == Ok::<Amount, VertexError>(Amount::of(value as nat)),
            value > MAX_LEDGER_UNITS ==> r == Err::<Amount, VertexError>(
                VertexError::AmountOutOfRange { value, max: MAX_LEDGER_UNITS },
            ),
            r matches Ok(a) ==> a.wf() && a.spec_units() == value,
    {
        if value > MAX_LEDGER_UNITS {
            return Err(VertexError::AmountOutOfRange { value, max: MAX_LEDGER_UNITS });
        }
        Ok(Amount(value))
    }

    /// The empty amount.
    pub fn zero() -> (r: Amount)
        ensures
            r.spec_units() == 0,
            r.wf(),
            r == Amount::of(0),
    {
        Amount(0)
    }

    /// The number of units held.
    pub fn units(self) -> (r: u128)
        ensures
            r == self.spec_units(),
    {
        self.0
    }

    /// Whether the amount holds no units.
    pub fn is_zero(self) -> (r: bool)
        ensures
            r == (self.spec_units() == 0),
    {
        self.0 == 0
    }

    /// Adds two amounts; the sum must fit in `u128` and stay within the ledger maximum.
    pub fn checked_add(self, rhs: Amount) -> (r: VertexResult<Amount>)
        ensures
            self.spec_units() + rhs.spec_units() > u128::MAX ==> r == Err::<Amount, VertexError>(
                VertexError::AmountOverflow,
            ),
            self.spec_units() + rhs.spec_units() <= u128::MAX && self.spec_units()
                + rhs.spec_units() > MAX_LEDGER_UNITS ==> r == Err::<Amount, VertexError>(
                VertexError::AmountOutOfRange {
                    value: (self.spec_units() + rhs.spec_units()) as u128,
                    max: MAX_LEDGER_UNITS,
                },
            ),
            self.spec_units() + rhs.spec_units() <= MAX_LEDGER_UNITS ==> r == Ok::<
                Amount,
                VertexError,
            >(Amount::of(self.spec_units() + rhs.spec_units())),
            r matches Ok(a) ==> a.wf() && a.spec_units() == self.spec_units() + rhs.spec_units(),
    {
        let value = match self.0.checked_add(rhs.0) {
            Some(v) => v,
            None => return Err(VertexError::AmountOverflow),
        };
        Amount::new(value)
    }

    /// Subtracts `rhs`; the difference must not be negative.
    pub fn checked_sub(self, rhs: Amount) -> (r: VertexResult<Amount>)
        ensures
            self.spec_units() < rhs.spec_units() ==> r == Err::<Amount, VertexError>(
                VertexError::AmountUnderflow,
            ),
            rhs.spec_units() <= self.spec_units() && self.spec_units() - rhs.spec_units()
                > MAX_LEDGER_UNITS ==> r == Err::<Amount, VertexError>(
                VertexError::AmountOutOfRange {
                    value: (self.spec_units() - rhs.spec_units()) as u128,
                    max: MAX_LEDGER_UNITS,
                },
            ),
            rhs.spec_units() <= self.spec_units() && self.spec_units() - rhs.spec_units()
                <= MAX_LEDGER_UNITS ==> r == Ok::<Amount, VertexError>(
                Amount::of((self.spec_units() - rhs.spec_units()) as nat),
            ),
            r matches Ok(a) ==> a.wf() && a.spec_units() == self.spec_units() - rhs.spec_units(),
    {
        let value = match self.0.checked_sub(rhs.0) {
            Some(v) => v,
            None => return Err(VertexError::AmountUnderflow),
        };
        Amount::new(value)
    }

    /// Scales the amount by `bps` basis points, rounding down.
    pub fn checked_mul_bps(self, bps: Bps) -> (r: VertexResult<Amount>)
        ensures
            self.spec_units() * bps.spec_value() > u128::MAX ==> r == Err::<Amount, VertexError>(
                VertexError::AmountOverflow,
            ),
            self.spec_units() * bps.spec_value() <= u128::MAX && (self.spec_units()
                * bps.spec_value()) / (MAX_BPS as nat) > MAX_LEDGER_UNITS ==> r == Err::<
                Amount,
                VertexError,
            >(
                VertexError::AmountOutOfRange {
                    value: ((self.spec_units() * bps.spec_value()) / (MAX_BPS as nat)) as u128,
                    max: MAX_LEDGER_UNITS,
                },
            ),
            self.spec_units() * bps.spec_value() <= u128::MAX && (self.spec_units()
                * bps.spec_value()) / (MAX_BPS as nat) <= MAX_LEDGER_UNITS ==> r == Ok::<
                Amount,
                VertexError,
            >(Amount::of((self.spec_units() * bps.spec_value()) / (MAX_BPS as nat))),
            r matches Ok(a) ==> a.wf() && a.spec_units() == (self.spec_units() * bps.spec_value())
                / (MAX_BPS as nat),
            bps.spec_value() <= MAX_BPS,
    {
        proof {
            use_type_invariant(&bps);
        }
        let scaled = match self.0.checked_mul(bps.0 as u128) {
            Some(v) => v,
            None => return Err(VertexError::AmountOverflow),
        };
        Amount::new(scaled / (MAX_BPS as u128))
    }
}

impl Bps {
    /// The fraction, in basis points.
    pub closed spec fn spec_value(self) -> nat {
        self.0 as nat
    }

    /// A fraction is well formed when it does not exceed one hundred percent;
    /// every fraction is.
    #[verifier::type_invariant]
    pub closed spec fn wf(self) -> bool {
        self.0 <= MAX_BPS
    }

    /// A well-formed fraction is at most one hundred percent.
    pub proof fn lemma_wf(self)
        requires
            self.wf(),
        ensures
            self.spec_value() <= MAX_BPS,
    {
    }

    /// A fraction is the fraction of its own value.
    pub proof fn lemma_of_value(b: Bps)
        ensures
            Bps::of(b.spec_value()) == b,
    {
    }

    /// The fraction of `value` basis points, as a specification value.
    pub closed spec fn of(value: nat) -> Bps {
        Bps(value as u16)
    }

    /// A fraction built from a value within range holds exactly that value.
    pub proof fn lemma_of(value: nat)
        requires
            value <= MAX_BPS,
        ensures
            Bps::of(value).spec_value() == value,
            Bps::of(value).wf(),
    {
    }

    /// Builds a fraction, refusing more than one hundred percent.
    pub fn new(value: u16) -> (r: VertexResult<Bps>)
        ensures
            value <= MAX_BPS ==> r == Ok::<Bps, VertexError>(Bps::of(value as nat)),
            value > MAX_BPS ==> outcome(r, Some(Refusal::Policy(PolicyRule::BasisPointsAboveFull))),
            r matches Ok(b) ==> b.wf() && b.spec_value() == value,
    {
        if value > MAX_BPS {
            return Err(policy_error(PolicyRule::BasisPointsAboveFull));
        }
        Ok(Bps(value))
    }

    /// The fraction, in basis points.
    pub fn value(self) -> (r: u16)
        ensures
            r == self.spec_value(),
            r <= MAX_BPS,
    {
        proof {
            use_type_invariant(&self);
        }
        self.0
    }
}

impl CanonicalJson for Amount {
    open spec fn json(&self) -> Seq<u8> {
        decimal(self.spec_units())
    }

    fn write_json(&self, out: &mut Vec<u8>) {
        push_decimal(out, self.0);
    }
}

impl CanonicalJson for Bps {
    open spec fn json(&self) -> Seq<u8> {
        decimal(self.spec_value())
    }

    fn write_json(&self, out: &mut Vec<u8>) {
        push_decimal(out, self.0 as u128);
    }
}

} // verus!

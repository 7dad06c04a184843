use vstd::prelude::*;

use crate::errors::AstrolendError;
use crate::fixed_point::Fx;

verus! {

/// Supported oracle feed formats. Parsing the raw feed bytes belongs to the
/// host; the core consumes the uniform record below whatever the format.
#[derive(Clone, Copy, Debug, PartialEq, Eq, Structural)]
pub enum OracleSetup {
    Legacy,
    PullBased,
    SwitchboardV2,
    SwitchboardPull,
    Stub,
}

/// Direction of the conservative bias applied to a point estimate.
#[derive(Clone, Copy, Debug, PartialEq, Eq, Structural)]
pub enum PriceBias {
    Low,
    High,
}

/// Upper bound on a usable point price, in raw units.
pub const PRICE_BOUND_RAW: i128 = 0x10_0000_0000_0000_0000_0000_0000;

/// The conservative bias widens the point estimate by this multiple of the
/// confidence interval.
pub const CONF_INTERVAL_MULTIPLE: i128 = 2;

/// A confidence interval wider than this fraction of the price (one
/// twentieth) makes the observation unusable.
pub const MAX_CONF_FRACTION_DENOM: i128 = 20;

/// Uniform oracle observation: a point price per whole token, its
/// confidence interval, and the time it was published.
#[derive(Clone, Copy, Debug, PartialEq, Eq, Structural)]
pub struct OraclePrice {
    pub price: Fx,
    pub confidence: Fx,
    pub publish_time: i64,
}

impl OraclePrice {
    pub open spec fn wf(self) -> bool {
        &&& 0 <= self.price.raw <= PRICE_BOUND_RAW
        &&& self.confidence.raw >= 0
    }

    /// Age of the observation at `now`; a feed published in the future has
    /// age zero.
    pub open spec fn spec_age(self, now: i64) -> int {
        if now >= self.publish_time {
            now - self.publish_time
        } else {
            0
        }
    }

    /// Whether the observation is fresh enough: an age of exactly
    /// `max_age` still passes, one second more does not.
    pub fn check_age(&self, now: i64, max_age: u64) -> (r: Result<(), AstrolendError>)
        ensures
            r is Ok <==> self.spec_age(now) <= max_age,
            r is Err ==> r == Result::<(), AstrolendError>::Err(AstrolendError::StaleOracle),
    {
        if now < self.publish_time {
            return Ok(());
        }
        let age: i128 = (now as i128) - (self.publish_time as i128);
        if age <= max_age as i128 {
            Ok(())
        } else {
            Err(AstrolendError::StaleOracle)
        }
    }

    /// The conservatively low price: the point estimate minus twice the
    /// confidence, clamped at zero.
    pub open spec fn spec_price_low(self) -> int {
        if self.price.raw - CONF_INTERVAL_MULTIPLE * self.confidence.raw >= 0 {
            self.price.raw - CONF_INTERVAL_MULTIPLE * self.confidence.raw
        } else {
            0
        }
    }

    /// The conservatively high price: the point estimate plus twice the
    /// confidence.
    pub open spec fn spec_price_high(self) -> int {
        self.price.raw + CONF_INTERVAL_MULTIPLE * self.confidence.raw
    }

    /// Biased price as used by the risk engine.
    pub open spec fn spec_biased_price(self, bias: PriceBias) -> int {
        match bias {
            PriceBias::Low => self.spec_price_low(),
            PriceBias::High => self.spec_price_high(),
        }
    }

    /// Whether the confidence interval is narrow enough to use: at most one
    /// twentieth of the point price.
    pub open spec fn spec_confidence_acceptable(self) -> bool {
        MAX_CONF_FRACTION_DENOM * self.confidence.raw <= self.price.raw
    }

    /// Biased price per whole token, rejecting observations whose
    /// confidence interval is too wide.
    pub fn get_price_with_bias(&self, bias: PriceBias) -> (r: Result<Fx, AstrolendError>)
        requires
            self.wf(),
        ensures
            r is Err <==> !self.spec_confidence_acceptable(),
            r is Err ==> r == Result::<Fx, AstrolendError>::Err(
                AstrolendError::PriceConfidenceTooWide,
            ),
            r matches Ok(p) ==> p.raw == self.spec_biased_price(bias),
            r matches Ok(p) ==> 0 <= p.raw <= 2 * PRICE_BOUND_RAW,
    {
        if self.confidence.raw > PRICE_BOUND_RAW {
            // Then twenty times the confidence certainly exceeds the price.
            return Err(AstrolendError::PriceConfidenceTooWide);
        }
        if MAX_CONF_FRACTION_DENOM * self.confidence.raw > self.price.raw {
            return Err(AstrolendError::PriceConfidenceTooWide);
        }
        let shift: i128 = CONF_INTERVAL_MULTIPLE * self.confidence.raw;
        match bias {
            PriceBias::Low => {
                if self.price.raw >= shift {
                    Ok(Fx { raw: self.price.raw - shift })
                } else {
                    Ok(Fx { raw: 0 })
                }
            },
            PriceBias::High => Ok(Fx { raw: self.price.raw + shift }),
        }
    }
}

} // verus!

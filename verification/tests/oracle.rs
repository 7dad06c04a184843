use astrolend::errors::AstrolendError;
use astrolend::fixed_point::{fx_checked_div, fx_checked_mul, Fx, FX_FRAC_RAW};
use astrolend::price::{OraclePrice, PriceBias};

fn stub_feed(price_raw: i128, publish_time: i64) -> OraclePrice {
    OraclePrice {
        price: Fx { raw: price_raw },
        confidence: Fx { raw: 0 },
        publish_time,
    }
}

#[test]
fn price_update() {
    let mut feed = stub_feed(1000 * FX_FRAC_RAW, 0);
    assert_eq!(feed.price.raw, 1000 * FX_FRAC_RAW);

    feed.price = Fx::from_tokens(1100);

    let new_price = feed.price;
    assert_eq!(new_price, Fx::from_tokens(1100));
    assert_eq!(
        feed.get_price_with_bias(PriceBias::Low).unwrap(),
        Fx::from_tokens(1100)
    );
}

#[test]
fn pyth_timestamp_update() {
    let mut feed = stub_feed(FX_FRAC_RAW, 0);

    let initial_timestamp = feed.publish_time;
    assert_eq!(initial_timestamp, 0);

    feed.publish_time = 123_456;

    assert_eq!(feed.publish_time, 123_456);
    // The refreshed feed passes the staleness gate at its publish time.
    assert!(feed.check_age(123_456, 0).is_ok());
}

#[test]
fn oracle_age_boundary() {
    let feed = stub_feed(FX_FRAC_RAW, 1_000);
    // Exactly at the maximum age passes.
    assert!(feed.check_age(1_060, 60).is_ok());
    // One second older fails.
    assert_eq!(feed.check_age(1_061, 60), Err(AstrolendError::StaleOracle));
}

#[test]
fn confidence_bias_and_rejection() {
    // A confidence within a twentieth of the price biases the estimate by
    // twice the confidence in either direction.
    let feed = OraclePrice {
        price: Fx::from_tokens(100),
        confidence: Fx::from_tokens(5),
        publish_time: 0,
    };
    assert_eq!(
        feed.get_price_with_bias(PriceBias::Low).unwrap(),
        Fx::from_tokens(90)
    );
    assert_eq!(
        feed.get_price_with_bias(PriceBias::High).unwrap(),
        Fx::from_tokens(110)
    );

    // A wider interval makes the observation unusable.
    let wide = OraclePrice {
        price: Fx::from_tokens(100),
        confidence: Fx { raw: 5 * FX_FRAC_RAW + 1 },
        publish_time: 0,
    };
    assert_eq!(
        wide.get_price_with_bias(PriceBias::Low),
        Err(AstrolendError::PriceConfidenceTooWide)
    );
}

#[test]
fn fixed_point_multiplication_truncates_toward_zero() {
    // 6 * 7 = 42 exactly.
    assert_eq!(
        fx_checked_mul(Fx::from_tokens(6), Fx::from_tokens(7)),
        Some(Fx::from_tokens(42))
    );
    // 3 raw units times one half leaves 1.5 raw units, truncated to 1.
    assert_eq!(
        fx_checked_mul(Fx { raw: 3 }, Fx { raw: FX_FRAC_RAW / 2 }),
        Some(Fx { raw: 1 })
    );
    // An overflowing product is refused rather than wrapped.
    assert_eq!(fx_checked_mul(Fx { raw: i128::MAX }, Fx::from_tokens(2)), None);
}

#[test]
fn fixed_point_division_truncates_toward_zero() {
    assert_eq!(
        fx_checked_div(Fx::from_tokens(42), Fx::from_tokens(7)),
        Some(Fx::from_tokens(6))
    );
    // 1 / 3 at 48 fractional bits: the exact third, rounded down.
    let third = fx_checked_div(Fx::from_tokens(1), Fx::from_tokens(3)).unwrap();
    assert_eq!(third.raw, FX_FRAC_RAW / 3);
    // Dividing the maximum by a half overflows the backing and is refused.
    assert_eq!(
        fx_checked_div(Fx { raw: i128::MAX }, Fx { raw: FX_FRAC_RAW / 2 }),
        None
    );
}

use statrs::distribution::ContinuousCDF;
use statrs::distribution::Normal;
use statrs::function::erf::erfc;
use termvol::binary64::Binary64;
use termvol::pricing::MarketSnapshot;
use termvol::pricing::OptionKind;
use termvol::pricing::PricingError;
use termvol::pricing::PricingRequest;
use termvol::simulation::plan;

fn num(x: f64) -> Binary64 {
    Binary64::from_bits(x.to_bits())
}

fn val(x: Binary64) -> f64 {
    f64::from_bits(x.to_bits())
}

fn market(spot: f64, rate: f64) -> MarketSnapshot {
    MarketSnapshot { spot_price: num(spot), risk_free_rate: num(rate) }
}

fn norm_cdf(x: f64) -> f64 {
    0.5 * erfc(-x / 2.0_f64.sqrt())
}

/// The closed form, for the requests that the library admits.
fn closed_form(request: &PricingRequest) -> Result<f64, PricingError> {
    request.validate()?;
    let s = val(request.spot);
    let k = val(request.strike);
    let t = val(request.time_to_maturity);
    let r = val(request.rate);
    let sigma = val(request.volatility);
    let d1 = ((s / k).ln() + (r + 0.5 * sigma * sigma) * t) / (sigma * t.sqrt());
    let d2 = d1 - sigma * t.sqrt();
    Ok(match request.kind {
        OptionKind::Call => s * norm_cdf(d1) - k * (-r * t).exp() * norm_cdf(d2),
        OptionKind::Put => k * (-r * t).exp() * norm_cdf(-d2) - s * norm_cdf(-d1),
    })
}

/// The simulated price over evenly spread quantiles, for the requests that
/// the library admits: it plans the run and decides each exercise.
fn simulated(request: &PricingRequest, sample_count: usize) -> Result<f64, PricingError> {
    let plan = plan(request, sample_count)?;
    let s = val(request.spot);
    let k = val(request.strike);
    let t = val(request.time_to_maturity);
    let r = val(request.rate);
    let sigma = val(request.volatility);
    let normal = Normal::new(0.0, 1.0).unwrap();
    let drift = (r - 0.5 * sigma * sigma) * t;
    let diffusion = sigma * t.sqrt();
    let mut total = 0.0;
    for i in 0..plan.sample_count {
        let quantile = (i as f64 + 0.5) / plan.sample_count as f64;
        let st = s * (drift + diffusion * normal.inverse_cdf(quantile)).exp();
        if request.kind.exercised(num(st), request.strike) {
            total += match request.kind {
                OptionKind::Call => st - k,
                OptionKind::Put => k - st,
            };
        }
    }
    Ok((-(r * t)).exp() * total / plan.sample_count as f64)
}

#[test]
fn a_snapshot_gives_the_request_its_spot_and_rate() {
    let request = market(100.0, 0.05).request(num(95.0), num(0.5), num(0.25), OptionKind::Put);
    assert_eq!(
        request,
        PricingRequest {
            spot: num(100.0),
            strike: num(95.0),
            time_to_maturity: num(0.5),
            rate: num(0.05),
            volatility: num(0.25),
            kind: OptionKind::Put,
        }
    );
}

#[test]
fn the_reference_call_and_put_are_priced() {
    let snapshot = market(100.0, 0.05);
    let call = closed_form(&snapshot.request(num(100.0), num(1.0), num(0.2), OptionKind::Call)).unwrap();
    let put = closed_form(&snapshot.request(num(100.0), num(1.0), num(0.2), OptionKind::Put)).unwrap();
    assert!((call - 10.4506).abs() < 1.0e-4, "{}", call);
    assert!((put - 5.5735).abs() < 1.0e-4, "{}", put);
    let forward = 100.0 - 100.0 * (-0.05_f64).exp();
    assert!((call - put - forward).abs() < 1.0e-12, "{} {}", call - put, forward);
}

#[test]
fn the_simulation_approaches_the_closed_form() {
    let snapshot = market(100.0, 0.05);
    for kind in [OptionKind::Call, OptionKind::Put] {
        for strike in [80.0, 100.0, 125.0] {
            let request = snapshot.request(num(strike), num(1.0), num(0.2), kind);
            let exact = closed_form(&request).unwrap();
            let coarse = simulated(&request, 2_000).unwrap();
            let fine = simulated(&request, 200_000).unwrap();
            assert!((fine - exact).abs() < 2.0e-3, "{:?} {} {} {}", kind, strike, fine, exact);
            assert!((fine - exact).abs() <= (coarse - exact).abs());
        }
    }
}

#[test]
fn neither_pricer_prices_a_rejected_request() {
    let snapshot = market(100.0, 0.05);
    let expired = snapshot.request(num(100.0), num(0.0), num(0.2), OptionKind::Call);
    let flat = snapshot.request(num(100.0), num(1.0), num(0.0), OptionKind::Put);
    for request in [expired, flat] {
        assert_eq!(closed_form(&request), Err(PricingError::InvalidPricingInput));
        assert_eq!(simulated(&request, 1_000), Err(PricingError::InvalidPricingInput));
    }
}

#[test]
fn an_option_that_cannot_pay_is_worth_nothing_in_simulation() {
    let deep = market(100.0, 0.0).request(num(1.0e9), num(0.01), num(0.01), OptionKind::Call);
    assert_eq!(simulated(&deep, 10_000), Ok(0.0));
}

use transaction_bench::cli::{
    parse_and_normalize_url, parse_duration, parse_fee_tiers, tier_weight_texts, websocket_url,
    FeeDistributionKind, FloatReadings, InstructionPaddingParams, PriorityFeeParams,
    SimpleTransferTxParams, TransactionParams, DEFAULT_MAX_LAMPORTS_TO_TRANSFER,
    DEFAULT_PARETO_ALPHA_BITS, DEFAULT_POWER_LAW_BETA_BITS, DEFAULT_TIER_WEIGHT_BITS,
};
use transaction_bench::cli::FeeDistributionKind::{Pareto, PowerLaw, Premium, Tiered, Uniform};
use transaction_bench::priority_fee::{
    Binary64, FeeDistribution, FeeTier, PremiumPlan, PriorityFeeMode,
};

fn number(x: f64) -> Binary64 {
    Binary64 { bits: x.to_bits() }
}

fn read_weights(spec: &str) -> Vec<Option<Binary64>> {
    tier_weight_texts(spec).iter().map(|text| text.parse::<f64>().ok().map(number)).collect()
}

fn tiers(spec: &str) -> Result<Vec<FeeTier>, String> {
    parse_fee_tiers(spec, &read_weights(spec))
}

/// Resolves settings, with the floating-point arithmetic done here.
fn to_mode(params: &PriorityFeeParams, n: Option<u64>) -> Result<PriorityFeeMode, String> {
    let scaled_fraction = match (params.high_fee_fraction, n) {
        (Some(fraction), Some(n)) => (f64::from_bits(fraction.bits) * n as f64).round() as u64,
        _ => 0,
    };
    let tier_weights = params.priority_fee_tiers.as_deref().map_or(vec![], read_weights);
    params.to_mode(n, &FloatReadings { scaled_fraction, tier_weights })
}

fn params(
    max: u64,
    period: Option<u64>,
    distribution: FeeDistributionKind,
    shape: Option<f64>,
    tiers: Option<&str>,
) -> PriorityFeeParams {
    PriorityFeeParams {
        random_compute_unit_price_max: max,
        priority_fee_distribution: distribution,
        priority_fee_shape: shape.map(number),
        priority_fee_tiers: tiers.map(String::from),
        high_fee_microlamports: None,
        high_fee_fraction: None,
        high_fee_count: None,
        priority_fee_schedule_period_ms: period,
    }
}

fn premium(
    microlamports: Option<u64>,
    fraction: Option<f64>,
    count: Option<u64>,
) -> PriorityFeeParams {
    PriorityFeeParams {
        random_compute_unit_price_max: 0,
        priority_fee_distribution: Premium,
        priority_fee_shape: None,
        priority_fee_tiers: None,
        high_fee_microlamports: microlamports,
        high_fee_fraction: fraction.map(number),
        high_fee_count: count,
        priority_fee_schedule_period_ms: None,
    }
}

#[test]
fn test_instruction_padding_config_defaults_program_id() {
    let params = TransactionParams {
        simple_transfer_tx_params: SimpleTransferTxParams {
            max_lamports_to_transfer: DEFAULT_MAX_LAMPORTS_TO_TRANSFER,
            transfer_tx_cu_budget: 600,
            num_send_instructions_per_tx: 1,
            tx_batch_size: None,
            num_conflict_groups: None,
        },
        padding_params: InstructionPaddingParams {
            instruction_padding_data_size: Some(128),
            instruction_padding_program_id: None,
        },
        use_txv1: false,
    };

    let padding_config = params.instruction_padding_config().unwrap();

    assert_eq!(padding_config.program_id, spl_instruction_padding_interface::ID.to_bytes());
    assert_eq!(padding_config.data_size, 128);
    assert_eq!(padding_config.loaded_accounts_data_size_limit, 58 * 1024);
}

#[test]
fn test_instruction_padding_config_follows_the_settings() {
    let mut params = TransactionParams {
        simple_transfer_tx_params: SimpleTransferTxParams {
            max_lamports_to_transfer: 513,
            transfer_tx_cu_budget: 600,
            num_send_instructions_per_tx: 1,
            tx_batch_size: None,
            num_conflict_groups: None,
        },
        padding_params: InstructionPaddingParams {
            instruction_padding_data_size: None,
            instruction_padding_program_id: Some([4; 32]),
        },
        use_txv1: false,
    };
    assert!(params.instruction_padding_config().is_none());
    params.padding_params.instruction_padding_data_size = Some(0);
    assert_eq!(params.instruction_padding_config().unwrap().program_id, [4; 32]);
}

#[test]
fn test_priority_fee_params_try_into_mode() {
    // max = 0 with defaults => no additional fee.
    assert_eq!(
        to_mode(&params(0, None, Uniform, None, None), None).unwrap(),
        PriorityFeeMode::BaseOnly
    );

    // max > 0, uniform (default) => Random(Uniform).
    assert_eq!(
        to_mode(&params(100, None, Uniform, None, None), None).unwrap(),
        PriorityFeeMode::Random(FeeDistribution::Uniform { max: 100 })
    );

    // max > 0 with schedule => Scheduled.
    assert_eq!(
        to_mode(&params(10, Some(5), Uniform, None, None), None).unwrap(),
        PriorityFeeMode::Scheduled { max: 10, period_ms: 5 }
    );

    // Scheduling with max = 0 is rejected: it would do nothing.
    assert!(to_mode(&params(0, Some(5), Uniform, None, None), None).is_err());

    // Scheduled cannot combine with a non-uniform distribution.
    assert!(to_mode(&params(10, Some(5), Pareto, None, None), None).is_err());

    // power-law: the shape becomes beta; the default applies when unset.
    assert_eq!(
        to_mode(&params(1000, None, PowerLaw, Some(3.0), None), None).unwrap(),
        PriorityFeeMode::Random(FeeDistribution::PowerLaw { max: 1000, beta: number(3.0) })
    );
    assert_eq!(
        to_mode(&params(1000, None, PowerLaw, None, None), None).unwrap(),
        PriorityFeeMode::Random(FeeDistribution::PowerLaw {
            max: 1000,
            beta: Binary64 { bits: DEFAULT_POWER_LAW_BETA_BITS }
        })
    );

    // pareto: the shape becomes alpha; the default applies when unset.
    assert_eq!(
        to_mode(&params(1000, None, Pareto, None, None), None).unwrap(),
        PriorityFeeMode::Random(FeeDistribution::Pareto {
            max: 1000,
            alpha: Binary64 { bits: DEFAULT_PARETO_ALPHA_BITS }
        })
    );

    // A shape that is not positive is rejected.
    assert!(to_mode(&params(1000, None, PowerLaw, Some(0.0), None), None).is_err());

    // A shape has no effect for uniform.
    assert!(to_mode(&params(1000, None, Uniform, Some(2.0), None), None).is_err());

    // A non-uniform distribution does nothing when max = 0.
    assert!(to_mode(&params(0, None, Pareto, None, None), None).is_err());

    // tiered parses the table and ignores max.
    assert_eq!(
        to_mode(&params(0, None, Tiered, None, Some("0:90,500:9,1000:1")), None).unwrap(),
        PriorityFeeMode::Random(FeeDistribution::Tiered {
            tiers: vec![
                FeeTier { fee: 0, weight: number(90.0) },
                FeeTier { fee: 500, weight: number(9.0) },
                FeeTier { fee: 1000, weight: number(1.0) },
            ]
        })
    );

    // A bare fee has the weight one.
    assert_eq!(
        to_mode(&params(0, None, Tiered, None, Some("0,1000")), None).unwrap(),
        PriorityFeeMode::Random(FeeDistribution::Tiered {
            tiers: vec![
                FeeTier { fee: 0, weight: number(1.0) },
                FeeTier { fee: 1000, weight: number(1.0) },
            ]
        })
    );

    // tiered without a table is rejected; a table outside tiered is rejected.
    assert!(to_mode(&params(0, None, Tiered, None, None), None).is_err());
    assert!(to_mode(&params(1000, None, Uniform, None, Some("0:1")), None).is_err());
    // Malformed tables are rejected.
    assert!(to_mode(&params(0, None, Tiered, None, Some("0:0")), None).is_err(), "zero weight");
    assert!(
        to_mode(&params(0, None, Tiered, None, Some("abc:1")), None).is_err(),
        "non-numeric fee"
    );

    let n = Some;

    // fraction => premium count = round(fraction * N).
    assert_eq!(
        to_mode(&premium(Some(1000), Some(0.01), None), n(10_000)).unwrap(),
        PriorityFeeMode::Premium(PremiumPlan {
            total: 10_000,
            premium_count: 100,
            premium_fee: 1000
        })
    );
    // An explicit count is taken as it is.
    assert_eq!(
        to_mode(&premium(Some(1000), None, Some(42)), n(10_000)).unwrap(),
        PriorityFeeMode::Premium(PremiumPlan {
            total: 10_000,
            premium_count: 42,
            premium_fee: 1000
        })
    );
    // Premium requires a total, a fee, and exactly one of fraction and count.
    assert!(to_mode(&premium(Some(1000), Some(0.01), None), None).is_err());
    assert!(to_mode(&premium(None, Some(0.01), None), n(100)).is_err());
    assert!(to_mode(&premium(Some(1000), None, None), n(100)).is_err());
    assert!(to_mode(&premium(Some(1000), Some(0.01), Some(5)), n(100)).is_err());
    // The fraction must be in (0.0, 1.0]; the count must be <= N.
    assert!(to_mode(&premium(Some(1000), Some(0.0), None), n(100)).is_err());
    assert!(to_mode(&premium(Some(1000), Some(1.5), None), n(100)).is_err());
    assert!(to_mode(&premium(Some(1000), None, Some(101)), n(100)).is_err());

    // The high-fee settings outside premium mode are rejected.
    let mut high_fee_on_uniform = params(1000, None, Uniform, None, None);
    high_fee_on_uniform.high_fee_microlamports = Some(1000);
    assert!(to_mode(&high_fee_on_uniform, n(100)).is_err());

    // Premium rejects the random and scheduled settings.
    let mut premium_with_max = premium(Some(1000), Some(0.01), None);
    premium_with_max.random_compute_unit_price_max = 500;
    assert!(to_mode(&premium_with_max, n(100)).is_err());
}

#[test]
fn test_mode_error_messages() {
    let error = |p: PriorityFeeParams, n: Option<u64>| to_mode(&p, n).unwrap_err();
    let mut high_fee = params(1000, None, Uniform, None, None);
    high_fee.high_fee_count = Some(1);
    assert_eq!(
        error(high_fee, None),
        "--high-fee-microlamports / --high-fee-fraction / --high-fee-count require \
         --priority-fee-distribution premium"
    );
    assert_eq!(
        error(params(0, Some(5), Uniform, None, None), None),
        "--priority-fee-schedule-period-ms has no effect when --random-compute-unit-price-max is \
         0; set it to a positive value"
    );
    assert_eq!(
        error(params(1, Some(5), Uniform, Some(1.0), None), None),
        "--priority-fee-schedule-period-ms (scheduled mode) cannot be combined with \
         --priority-fee-distribution / --priority-fee-shape / --priority-fee-tiers"
    );
    assert_eq!(
        error(params(0, None, Tiered, Some(1.0), Some("1")), None),
        "--priority-fee-shape has no effect for --priority-fee-distribution tiered"
    );
    assert_eq!(
        error(params(0, None, Tiered, None, None), None),
        "--priority-fee-distribution tiered requires --priority-fee-tiers"
    );
    assert_eq!(
        error(params(0, None, Uniform, None, Some("1")), None),
        "--priority-fee-tiers requires --priority-fee-distribution tiered"
    );
    assert_eq!(
        error(params(0, None, Uniform, Some(1.0), None), None),
        "--priority-fee-distribution / --priority-fee-shape have no effect when \
         --random-compute-unit-price-max is 0; set it to a positive value"
    );
    assert_eq!(
        error(params(1, None, Uniform, Some(1.0), None), None),
        "--priority-fee-shape has no effect for --priority-fee-distribution uniform"
    );
    assert_eq!(
        error(params(1, None, PowerLaw, Some(f64::NAN), None), None),
        "--priority-fee-shape (power-law beta) must be a positive, finite number"
    );
    assert_eq!(
        error(params(1, None, Pareto, Some(f64::INFINITY), None), None),
        "--priority-fee-shape (pareto alpha) must be a positive, finite number"
    );
    let mut scheduled = premium(Some(1), Some(0.5), None);
    scheduled.priority_fee_schedule_period_ms = Some(1);
    assert_eq!(
        error(scheduled, Some(1)),
        "--priority-fee-distribution premium does not use --random-compute-unit-price-max / \
         --priority-fee-shape / --priority-fee-tiers / --priority-fee-schedule-period-ms"
    );
    assert_eq!(
        error(premium(Some(1), Some(0.5), None), None),
        "--priority-fee-distribution premium requires --num-transactions (the premium count is \
         derived from it)"
    );
    assert_eq!(
        error(premium(None, Some(0.5), None), Some(1)),
        "--priority-fee-distribution premium requires --high-fee-microlamports"
    );
    assert_eq!(
        error(premium(Some(1), Some(0.5), Some(1)), Some(1)),
        "set only one of --high-fee-fraction or --high-fee-count"
    );
    assert_eq!(
        error(premium(Some(1), None, None), Some(1)),
        "--priority-fee-distribution premium requires --high-fee-fraction or --high-fee-count"
    );
    assert_eq!(
        error(premium(Some(1), Some(-0.5), None), Some(1)),
        "--high-fee-fraction must be in (0.0, 1.0]"
    );
    assert_eq!(
        error(premium(Some(1), None, Some(101)), Some(100)),
        "--high-fee-count (101) cannot exceed --num-transactions (100)"
    );
}

#[test]
fn test_premium_count_never_exceeds_the_total() {
    // The nearest floating-point number lies above this total.
    let total = (1u64 << 54) + 3;
    assert_eq!(
        to_mode(&premium(Some(1), Some(1.0), None), Some(total)).unwrap(),
        PriorityFeeMode::Premium(PremiumPlan { total, premium_count: total, premium_fee: 1 })
    );
}

#[test]
fn test_fee_tiers_grammar() {
    let tier = |fee: u64, weight: f64| FeeTier { fee, weight: number(weight) };
    assert_eq!(tiers(" 5 : 2.5 , ,7,").unwrap(), vec![tier(5, 2.5), tier(7, 1.0)]);
    assert_eq!(tiers("+3:1e2").unwrap(), vec![tier(3, 100.0)]);
    assert_eq!(tier_weight_texts("1, 2 : a:b ,3:4"), vec!["a:b", "4"]);
    assert_eq!(Binary64 { bits: DEFAULT_TIER_WEIGHT_BITS }, number(1.0));
    assert_eq!(
        tiers(" , ").unwrap_err(),
        "--priority-fee-tiers must list at least one fee:weight tier"
    );
    assert_eq!(
        tiers("1,2:x").unwrap_err(),
        "invalid weight in --priority-fee-tiers entry '2:x'"
    );
    assert_eq!(
        tiers("1, y:1 ,2:x").unwrap_err(),
        "invalid fee in --priority-fee-tiers entry 'y:1'"
    );
    assert_eq!(
        tiers("1:-1").unwrap_err(),
        "weight must be a positive, finite number in --priority-fee-tiers entry '1:-1'"
    );
    // Of one entry, the reading of the weight is looked at first, then the fee.
    assert_eq!(tiers("y:x").unwrap_err(), "invalid weight in --priority-fee-tiers entry 'y:x'");
    assert_eq!(tiers("y:0").unwrap_err(), "invalid fee in --priority-fee-tiers entry 'y:0'");
}

#[test]
fn test_parse_duration() {
    assert_eq!(parse_duration("120"), Ok(120_000_000_000));
    assert_eq!(parse_duration("0"), Ok(0));
    assert_eq!(parse_duration("1s"), Err("failed to parse duration"));
    assert_eq!(parse_duration("18446744073709551615"), Ok(18_446_744_073_709_551_615_000_000_000));
}

#[test]
fn test_urls_and_monikers() {
    assert_eq!(parse_and_normalize_url("l").unwrap(), "http://localhost:8899");
    assert_eq!(parse_and_normalize_url("localhost").unwrap(), "http://localhost:8899");
    assert_eq!(parse_and_normalize_url("m").unwrap(), "https://api.mainnet-beta.solana.com");
    assert_eq!(
        parse_and_normalize_url("mainnet-beta").unwrap(),
        "https://api.mainnet-beta.solana.com"
    );
    assert_eq!(parse_and_normalize_url("t").unwrap(), "https://api.testnet.solana.com");
    assert_eq!(parse_and_normalize_url("testnet").unwrap(), "https://api.testnet.solana.com");
    assert_eq!(parse_and_normalize_url("d").unwrap(), "https://api.devnet.solana.com");
    assert_eq!(parse_and_normalize_url("devnet").unwrap(), "https://api.devnet.solana.com");
    assert_eq!(parse_and_normalize_url("http://example.com:1").unwrap(), "http://example.com:1");
    for moniker in ["m", "testnet", "d", "localhost"] {
        let url = parse_and_normalize_url(moniker).unwrap();
        assert_eq!(parse_and_normalize_url(&url).unwrap(), url);
    }
    assert_eq!(
        parse_and_normalize_url("garbage").unwrap_err(),
        "Invalid URL or moniker: relative URL without a base"
    );
    assert_eq!(
        parse_and_normalize_url("mailto:a@b").unwrap_err(),
        "Invalid URL or moniker: no host provided"
    );
}

#[test]
fn test_websocket_urls() {
    assert_eq!(websocket_url("http://localhost:8899").unwrap(), "ws://localhost:8900/");
    assert_eq!(
        websocket_url("https://api.testnet.solana.com").unwrap(),
        "wss://api.testnet.solana.com/"
    );
    assert_eq!(websocket_url("http://localhost:65534").unwrap(), "ws://localhost:65535/");
    assert!(websocket_url("http://localhost:65535").is_none());
    assert!(websocket_url("http://localhost:655\t35").is_none());
    assert!(websocket_url("custom://localhost").is_none());
    assert!(websocket_url("http://").is_none());
    assert!(websocket_url("garbage").is_none());
    assert!(websocket_url("file:///no/host").is_none());

    // The scheme counts in any case, and is one of six.
    assert_eq!(websocket_url("HTTP://Example.com:1").unwrap(), "ws://example.com:2/");
    assert_eq!(websocket_url("hTTpS://h:1/a?b#c").unwrap(), "wss://h:2/a?b#c");
    assert_eq!(websocket_url("ws://h:5").unwrap(), "ws://h:6/");
    assert_eq!(websocket_url("wss://h").unwrap(), "ws://h/");
    assert_eq!(websocket_url("ftp://h:5/x").unwrap(), "ws://h:6/x");
    assert_eq!(websocket_url("file://host/x").unwrap(), "ws://host/x");
    assert_eq!(websocket_url("http:h:7").unwrap(), "ws://h:8/");

    // The last port number has no successor; elsewhere its digits do no harm.
    for url in [
        "http://h:65535/x",
        "http://h:065535",
        " http://h:65535 ",
        "http:\\\\h:65535\\x",
        "http://h:65535?q",
        "http://h:65535#f",
        "http://u:p@[::1]:6\n5535",
    ] {
        assert!(websocket_url(url).is_none(), "{url}");
    }
    assert_eq!(websocket_url("http://h/x:65535").unwrap(), "ws://h/x:65535");
    assert_eq!(websocket_url("http://h?x:65535").unwrap(), "ws://h/?x:65535");
    assert_eq!(websocket_url("http://h65535.net").unwrap(), "ws://h65535.net/");
    assert_eq!(websocket_url("http://u:65535@h:1").unwrap(), "ws://u:65535@h:2/");
    assert_eq!(websocket_url("http://u:65535@h").unwrap(), "ws://u:65535@h/");
    assert_eq!(websocket_url("http://[::1]:1").unwrap(), "ws://[::1]:2/");
    assert_eq!(websocket_url("\u{1} http://h:8\t899\n").unwrap(), "ws://h:8900/");

    // Monikers stand for their URLs.
    assert_eq!(websocket_url("l").unwrap(), "ws://localhost:8900/");
    assert_eq!(websocket_url("testnet").unwrap(), "wss://api.testnet.solana.com/");
}

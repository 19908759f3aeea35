use std::str::FromStr;

use gasbench::{
    compute_stats, encode_call, generate_suggestions, json_to_token, parse_param_type,
    within_encoder_limit, BenchConfig, BenchmarkResult, FunctionEntry, FunctionParam, FunctionStats,
    GasBenchError, GasLevel, GasProfile, JsonNumber, JsonValue, ParamType, RunSlot, Token, U256,
};

/// The profile the report derives from an average and a standard deviation.
fn profile(name: &str, iterations: u32, avg_gas: f64, std_dev: f64) -> GasProfile {
    let level = if avg_gas > 500_000.0 {
        GasLevel::Above500k
    } else if avg_gas > 200_000.0 {
        GasLevel::Above200k
    } else if avg_gas > 50_000.0 {
        GasLevel::Above50k
    } else {
        GasLevel::Low
    };
    GasProfile {
        function_name: name.to_string(),
        iterations,
        high_variance: std_dev > avg_gas * 0.2,
        level,
        std_dev_text: format!("{:.1}", std_dev),
        avg_gas_text: format!("{:.1}", avg_gas),
    }
}

fn run(name: &str, iteration: u32, gas_used: u64, success: bool) -> BenchmarkResult {
    BenchmarkResult {
        function_name: name.to_string(),
        iteration,
        gas_used,
        success,
        error: if success { None } else { Some("fail".to_string()) },
    }
}

fn text(s: &str) -> JsonValue {
    JsonValue::String(s.to_string())
}

fn param(name: &str, ty: &str, value: JsonValue) -> FunctionParam {
    FunctionParam { name: name.to_string(), param_type: ty.to_string(), value }
}

fn entry(name: &str, inputs: Vec<FunctionParam>) -> FunctionEntry {
    FunctionEntry { name: name.to_string(), inputs, state_mutability: "nonpayable".to_string() }
}

#[test]
fn test_parse_param_type_common() {
    assert!(matches!(parse_param_type("address").unwrap(), ParamType::Address));
    assert!(matches!(parse_param_type("bool").unwrap(), ParamType::Bool));
    assert!(matches!(parse_param_type("string").unwrap(), ParamType::String));
    assert!(matches!(parse_param_type("uint256").unwrap(), ParamType::Uint(256)));
    assert!(matches!(parse_param_type("int256").unwrap(), ParamType::Int(256)));
    assert!(matches!(parse_param_type("bytes32").unwrap(), ParamType::FixedBytes(32)));
    assert!(parse_param_type("totally_invalid").is_err());
}

#[test]
fn test_json_to_token_address() {
    let addr = "0x0000000000000000000000000000000000000001";
    let token = json_to_token(&text(addr), &ParamType::Address).unwrap();
    match token {
        Token::Address(a) => assert_eq!(a, ethers::types::Address::from_str(addr).unwrap().0),
        _ => panic!("Expected Address token"),
    }
}

#[test]
fn test_json_to_token_uint() {
    let token =
        json_to_token(&JsonValue::Number(JsonNumber::PosInt(42)), &ParamType::Uint(256)).unwrap();
    match token {
        Token::Uint(n) => assert_eq!(n.limbs, ethers::types::U256::from(42).0),
        _ => panic!("Expected Uint token"),
    }
}

#[test]
fn test_json_to_token_string() {
    let token = json_to_token(&text("hello"), &ParamType::String).unwrap();
    match token {
        Token::String(s) => assert_eq!(s, "hello"),
        _ => panic!("Expected String token"),
    }
}

#[test]
fn test_compute_stats() {
    let results = vec![
        BenchmarkResult {
            function_name: "transfer".to_string(),
            iteration: 0,
            gas_used: 21000,
            success: true,
            error: None,
        },
        BenchmarkResult {
            function_name: "transfer".to_string(),
            iteration: 1,
            gas_used: 21000,
            success: true,
            error: None,
        },
        BenchmarkResult {
            function_name: "transfer".to_string(),
            iteration: 2,
            gas_used: 0,
            success: false,
            error: Some("fail".to_string()),
        },
    ];

    let stats = compute_stats(&results);
    assert_eq!(stats.len(), 1);
    assert_eq!(stats[0].function_name, "transfer");
    assert_eq!(stats[0].iterations, 2);
    assert_eq!(stats[0].min_gas, 21000);
    assert_eq!(stats[0].max_gas, 21000);
    assert_eq!(stats[0].total_gas as f64 / stats[0].iterations as f64, 21000.0);
}

#[test]
fn test_generate_suggestions_high_gas() {
    let stats = vec![profile("expensiveFunc", 5, 550_000.0, 10_000.0)];

    let suggestions = generate_suggestions(&stats);
    assert!(!suggestions.is_empty());
    assert!(suggestions.iter().any(|s| s.severity == "HIGH"));
}

#[test]
fn test_generate_suggestions_low_gas() {
    let stats = vec![profile("cheapFunc", 5, 5050.0, 40.0)];

    let suggestions = generate_suggestions(&stats);
    assert!(suggestions.iter().any(|s| s.severity == "OK"));
}

#[test]
fn test_bench_config_new_invalid_address() {
    let result = BenchConfig::new("not_an_address", "http://localhost:8545", 3, vec![]);
    assert!(result.is_err());
}

#[test]
fn bench_config_keeps_parsed_address() {
    let config = BenchConfig::new(
        "0x00000000000000000000000000000000000000ff",
        "http://localhost:8545",
        3,
        vec![],
    )
    .unwrap();
    let mut expected = [0u8; 20];
    expected[19] = 0xff;
    assert_eq!(config.contract_address, expected);
    assert_eq!(config.rpc_url, "http://localhost:8545");
    assert_eq!(config.iterations, 3);
    assert!(matches!(
        BenchConfig::new("0x1234", "http://localhost:8545", 3, vec![]),
        Err(GasBenchError::InvalidContractAddress(_))
    ));
}

#[test]
fn address_accepts_whitespace_between_digits() {
    let token = json_to_token(
        &text("00000000 00000000 00000000 00000000 0000000a"),
        &ParamType::Address,
    )
    .unwrap();
    let mut expected = [0u8; 20];
    expected[19] = 0x0a;
    assert_eq!(token, Token::Address(expected));
}

#[test]
fn parse_param_type_names() {
    assert_eq!(parse_param_type("uint").unwrap(), ParamType::Uint(256));
    assert_eq!(parse_param_type("int").unwrap(), ParamType::Int(256));
    assert_eq!(parse_param_type("uint128").unwrap(), ParamType::Uint(128));
    assert_eq!(parse_param_type("uint64").unwrap(), ParamType::Uint(64));
    assert_eq!(parse_param_type("uint32").unwrap(), ParamType::Uint(32));
    assert_eq!(parse_param_type("uint8").unwrap(), ParamType::Uint(8));
    assert_eq!(parse_param_type("int128").unwrap(), ParamType::Int(128));
    assert_eq!(parse_param_type("int64").unwrap(), ParamType::Int(64));
    assert_eq!(parse_param_type("int32").unwrap(), ParamType::Int(32));
    assert_eq!(parse_param_type("int8").unwrap(), ParamType::Int(8));
    assert_eq!(parse_param_type("bytes").unwrap(), ParamType::Bytes);
    assert_eq!(parse_param_type("bytes1").unwrap(), ParamType::FixedBytes(1));
    assert_eq!(parse_param_type("uint256[]").unwrap(), ParamType::Uint(256));
    assert_eq!(parse_param_type("uint8[3]").unwrap(), ParamType::Uint(256));
    assert!(parse_param_type("int256[]").is_err());
    assert!(parse_param_type("uint16").is_err());
}

#[test]
fn unsupported_param_type_message() {
    let e = parse_param_type("tuple").unwrap_err();
    assert_eq!(e, GasBenchError::UnsupportedParamType("tuple".to_string()));
    assert_eq!(e.message(), "Unsupported param type: tuple");
}

#[test]
fn json_to_token_uint_from_decimal_text() {
    let token = json_to_token(&text("1000000000000000000"), &ParamType::Uint(256)).unwrap();
    let expected = ethers::types::U256::from_dec_str("1000000000000000000").unwrap();
    assert_eq!(token, Token::Uint(U256 { limbs: expected.0 }));
    assert!(matches!(
        json_to_token(&text("12a"), &ParamType::Uint(256)),
        Err(GasBenchError::InvalidUint(_))
    ));
    let too_big =
        "115792089237316195423570985008687907853269984665640564039457584007913129639936";
    assert!(matches!(
        json_to_token(&text(too_big), &ParamType::Uint(256)),
        Err(GasBenchError::InvalidUint(_))
    ));
    assert_eq!(
        json_to_token(&JsonValue::Number(JsonNumber::NegInt(-1)), &ParamType::Uint(256)),
        Err(GasBenchError::ExpectedUintValue)
    );
    assert_eq!(
        json_to_token(&JsonValue::Number(JsonNumber::Float), &ParamType::Uint(8)),
        Err(GasBenchError::ExpectedUintValue)
    );
}

#[test]
fn json_to_token_int_two_complement() {
    let token =
        json_to_token(&JsonValue::Number(JsonNumber::NegInt(-5)), &ParamType::Int(256)).unwrap();
    let max = u64::MAX;
    assert_eq!(token, Token::Int(U256 { limbs: [max - 4, max, max, max] }));
    let token = json_to_token(&text("-5"), &ParamType::Int(256)).unwrap();
    assert_eq!(token, Token::Int(U256 { limbs: [max - 4, max, max, max] }));
    let token = json_to_token(&text("+7"), &ParamType::Int(64)).unwrap();
    assert_eq!(token, Token::Int(U256::from_u64(7)));
    let token =
        json_to_token(&JsonValue::Number(JsonNumber::PosInt(9)), &ParamType::Int(256)).unwrap();
    assert_eq!(token, Token::Int(U256::from_u64(9)));
    assert_eq!(
        json_to_token(&JsonValue::Number(JsonNumber::PosInt(u64::MAX)), &ParamType::Int(256)),
        Err(GasBenchError::ExpectedIntValue)
    );
    assert!(matches!(
        json_to_token(&text("-0"), &ParamType::Int(256)),
        Err(GasBenchError::InvalidInt(_))
    ));
    assert_eq!(json_to_token(&JsonValue::Null, &ParamType::Int(8)), Err(GasBenchError::ExpectedIntValue));
}

#[test]
fn u256_from_signed_and_unsigned() {
    assert_eq!(U256::from_i64(-1).limbs, [u64::MAX; 4]);
    assert_eq!(U256::from_i64(i64::MIN).limbs, ethers::types::I256::from(i64::MIN).into_raw().0);
    assert_eq!(U256::from_u64(u64::MAX).limbs, [u64::MAX, 0, 0, 0]);
}

#[test]
fn json_to_token_kind_mismatches() {
    assert_eq!(
        json_to_token(&JsonValue::Bool(true), &ParamType::Address),
        Err(GasBenchError::ExpectedAddressString)
    );
    assert!(matches!(
        json_to_token(&text("0x12"), &ParamType::Address),
        Err(GasBenchError::InvalidAddress(_))
    ));
    assert_eq!(json_to_token(&text("true"), &ParamType::Bool), Err(GasBenchError::ExpectedBool));
    assert_eq!(json_to_token(&JsonValue::Bool(false), &ParamType::Bool), Ok(Token::Bool(false)));
    assert_eq!(json_to_token(&JsonValue::Array, &ParamType::String), Err(GasBenchError::ExpectedString));
    assert_eq!(json_to_token(&JsonValue::Object, &ParamType::Bytes), Err(GasBenchError::ExpectedHexBytes));
    assert_eq!(
        json_to_token(&JsonValue::Null, &ParamType::FixedBytes(32)),
        Err(GasBenchError::ExpectedHexFixedBytes)
    );
}

#[test]
fn json_to_token_bytes() {
    assert_eq!(
        json_to_token(&text("0xdeadBEEF"), &ParamType::Bytes),
        Ok(Token::Bytes(vec![0xde, 0xad, 0xbe, 0xef]))
    );
    assert_eq!(json_to_token(&text("0102"), &ParamType::Bytes), Ok(Token::Bytes(vec![1, 2])));
    assert!(matches!(
        json_to_token(&text("0x123"), &ParamType::Bytes),
        Err(GasBenchError::InvalidHex(_))
    ));
    assert!(matches!(
        json_to_token(&text("zz"), &ParamType::Bytes),
        Err(GasBenchError::InvalidHex(_))
    ));
}

#[test]
fn json_to_token_fixed_bytes_is_32_bytes() {
    let mut expected = vec![0u8; 32];
    expected[0] = 0xab;
    assert_eq!(
        json_to_token(&text("0xabcd"), &ParamType::FixedBytes(1)),
        Ok(Token::FixedBytes(expected))
    );
    let mut expected = vec![0u8; 32];
    expected[0] = 0x01;
    expected[1] = 0x02;
    assert_eq!(
        json_to_token(&text("0x0102"), &ParamType::FixedBytes(32)),
        Ok(Token::FixedBytes(expected))
    );
}

#[test]
fn encode_call_transfer() {
    let call = entry(
        "transfer",
        vec![
            param("to", "address", text("0x0000000000000000000000000000000000000001")),
            param("amount", "uint256", text("1000000000000000000")),
        ],
    );
    assert!(within_encoder_limit(&call));
    let data = encode_call(&call).unwrap();
    assert_eq!(
        hex::encode(data),
        "a9059cbb".to_string()
            + "0000000000000000000000000000000000000000000000000000000000000001"
            + "0000000000000000000000000000000000000000000000000de0b6b3a7640000"
    );
}

#[test]
fn encode_call_dynamic_values() {
    let call = entry(
        "setName",
        vec![param("name", "string", text("hi")), param("flag", "bool", JsonValue::Bool(true))],
    );
    let data = encode_call(&call).unwrap();
    let expected_selector = ethers::abi::short_signature(
        "setName",
        &[ethers::abi::ParamType::String, ethers::abi::ParamType::Bool],
    );
    assert_eq!(&data[..4], &expected_selector[..]);
    let expected_args = ethers::abi::encode(&[
        ethers::abi::Token::String("hi".to_string()),
        ethers::abi::Token::Bool(true),
    ]);
    assert_eq!(&data[4..], &expected_args[..]);
    assert_eq!(data.len(), 4 + 4 * 32);
}

#[test]
fn encode_call_reports_first_error() {
    let call = entry(
        "f",
        vec![
            param("a", "uint256", JsonValue::Bool(true)),
            param("b", "mystery", JsonValue::Null),
        ],
    );
    let e = encode_call(&call).unwrap_err();
    assert_eq!(e.message(), "Unsupported param type: mystery");
    let call = entry(
        "f",
        vec![param("a", "uint256", JsonValue::Bool(true)), param("b", "bool", JsonValue::Null)],
    );
    assert_eq!(encode_call(&call), Err(GasBenchError::ExpectedUintValue));
    assert_eq!(GasBenchError::ExpectedUintValue.message(), "Expected number or string for uint");
}

#[test]
fn encode_call_bytes1_does_not_fit() {
    let call = entry("g", vec![param("b", "bytes1", text("0xaa"))]);
    let e = encode_call(&call).unwrap_err();
    assert_eq!(e, GasBenchError::InvalidCallData);
    assert_eq!(e.message(), "Invalid data");
}

#[test]
fn encode_call_without_inputs_is_selector() {
    let call = entry("totalSupply", vec![]);
    assert_eq!(hex::encode(encode_call(&call).unwrap()), "18160ddd");
}

#[test]
fn compute_stats_orders_by_average() {
    let results = vec![
        run("cheap", 0, 100, true),
        run("dear", 0, 500, true),
        run("cheap", 1, 300, true),
        run("middle", 0, 250, true),
        run("dear", 1, 700, true),
        run("broken", 0, 0, false),
    ];
    let stats = compute_stats(&results);
    let names: Vec<&str> = stats.iter().map(|s| s.function_name.as_str()).collect();
    assert_eq!(names, vec!["dear", "middle", "cheap"]);
    assert_eq!(stats[0].total_gas, 1200);
    assert_eq!(stats[2].gas_values, vec![100, 300]);
}

#[test]
fn compute_stats_sorted_figures() {
    let results = vec![
        run("f", 0, 30, true),
        run("f", 1, 10, true),
        run("f", 2, 20, true),
        run("f", 3, 99, false),
    ];
    let stats: Vec<FunctionStats> = compute_stats(&results);
    assert_eq!(stats.len(), 1);
    let s = &stats[0];
    assert_eq!(s.gas_values, vec![10, 20, 30]);
    assert_eq!(s.iterations, 3);
    assert_eq!(s.min_gas, 10);
    assert_eq!(s.median_gas, 20);
    assert_eq!(s.max_gas, 30);
    assert_eq!(s.total_gas, 60);
    assert!(s.min_gas <= s.median_gas && s.median_gas <= s.max_gas);
}

#[test]
fn compute_stats_even_count_median_is_upper() {
    let results = vec![run("f", 0, 4, true), run("f", 1, 1, true), run("f", 2, 3, true), run("f", 3, 2, true)];
    let stats = compute_stats(&results);
    assert_eq!(stats[0].median_gas, 3);
}

#[test]
fn compute_stats_ignores_failed_runs() {
    let base = vec![run("a", 0, 10, true), run("b", 0, 20, true)];
    let mut with_failures = base.clone();
    with_failures.push(run("a", 1, 999, false));
    with_failures.push(run("c", 0, 5, false));
    let left = compute_stats(&base);
    let right = compute_stats(&with_failures);
    assert_eq!(left.len(), right.len());
    for (l, r) in left.iter().zip(right.iter()) {
        assert_eq!(l.function_name, r.function_name);
        assert_eq!(l.gas_values, r.gas_values);
    }
    assert!(compute_stats(&[run("x", 0, 1, false)]).is_empty());
}

#[test]
fn compute_stats_independent_of_run_order() {
    let a = vec![run("f", 0, 5, true), run("g", 0, 8, true), run("f", 1, 1, true)];
    let mut b = a.clone();
    b.reverse();
    let left = compute_stats(&a);
    let right = compute_stats(&b);
    assert_eq!(left.len(), 2);
    for s in &left {
        let other = right.iter().find(|t| t.function_name == s.function_name).unwrap();
        assert_eq!(s.gas_values, other.gas_values);
        assert_eq!(s.total_gas, other.total_gas);
    }
}

#[test]
fn suggestions_warn_and_medium() {
    let suggestions = generate_suggestions(&[profile("swap", 5, 250_000.0, 80_000.0)]);
    assert_eq!(suggestions.len(), 2);
    assert_eq!(suggestions[0].severity, "WARN");
    assert_eq!(
        suggestions[0].suggestion,
        "High gas variance (80000.0 std dev vs 250000.0 avg). Consider using require() guards earlier to fail fast, or review conditional branching."
    );
    assert_eq!(suggestions[1].severity, "MED");
    assert_eq!(suggestions[1].function_name, "swap");
}

#[test]
fn suggestions_variance_needs_three_runs() {
    let suggestions = generate_suggestions(&[profile("swap", 2, 250_000.0, 80_000.0)]);
    assert_eq!(suggestions.len(), 1);
    assert_eq!(suggestions[0].severity, "MED");
}

#[test]
fn suggestions_calldata_hint_once_per_name() {
    let suggestions = generate_suggestions(&[
        profile("mint", 5, 60_000.0, 10.0),
        profile("mint", 5, 70_000.0, 10.0),
        profile("burn", 5, 600_000.0, 10.0),
    ]);
    let rows: Vec<(&str, &str)> =
        suggestions.iter().map(|s| (s.function_name.as_str(), s.severity.as_str())).collect();
    assert_eq!(rows, vec![("mint", "INFO"), ("burn", "HIGH")]);
    assert_eq!(
        suggestions[0].suggestion,
        "Consider using calldata instead of memory for read-only function parameters to save gas."
    );
}

#[test]
fn suggestions_all_clear_when_nothing_found() {
    let suggestions = generate_suggestions(&[]);
    assert_eq!(suggestions.len(), 1);
    assert_eq!(suggestions[0].function_name, "*");
    assert_eq!(suggestions[0].severity, "OK");
    assert_eq!(suggestions[0].suggestion, "All functions appear reasonably gas-efficient.");
    let suggestions = generate_suggestions(&[profile("a", 3, 100.0, 1.0), profile("b", 3, 200.0, 1.0)]);
    assert_eq!(suggestions.len(), 1);
    assert_eq!(suggestions[0].severity, "OK");
}

#[test]
fn runs_go_function_by_function() {
    let f = entry("f", vec![]);
    let config = BenchConfig::new("0x0000000000000000000000000000000000000001", "http://x", 2, vec![f.clone(), f])
        .unwrap();
    let mut slots = Vec::new();
    let mut slot = config.first_run();
    while let Some(s) = slot {
        slots.push((s.function_index, s.iteration));
        slot = config.next_run(s);
    }
    assert_eq!(slots, vec![(0, 0), (0, 1), (1, 0), (1, 1)]);
    let empty = BenchConfig::new("0x0000000000000000000000000000000000000001", "http://x", 0, vec![entry("f", vec![])])
        .unwrap();
    assert_eq!(empty.first_run(), None::<RunSlot>);
}

#[test]
fn benchmark_result_from_outcome() {
    let ok = BenchmarkResult::from_outcome("f".to_string(), 3, Ok(21000));
    assert!(ok.success);
    assert_eq!(ok.gas_used, 21000);
    assert_eq!(ok.iteration, 3);
    assert_eq!(ok.error, None);
    let failed = BenchmarkResult::from_outcome("f".to_string(), 4, Err("Gas estimation failed".to_string()));
    assert!(!failed.success);
    assert_eq!(failed.gas_used, 0);
    assert_eq!(failed.error, Some("Gas estimation failed".to_string()));
}

#[test]
fn json_number_and_decimal_text_agree() {
    for n in [0u64, 7, 10, 42, 1_000_000, u64::MAX] {
        let from_number =
            json_to_token(&JsonValue::Number(JsonNumber::PosInt(n)), &ParamType::Uint(256)).unwrap();
        let from_text = json_to_token(&text(&n.to_string()), &ParamType::Uint(256)).unwrap();
        assert_eq!(from_number, from_text);
        assert_eq!(from_number, Token::Uint(U256 { limbs: ethers::types::U256::from(n).0 }));
    }
    for i in [0i64, 5, -1, -42, i64::MAX, i64::MIN] {
        let number = if i >= 0 {
            JsonValue::Number(JsonNumber::PosInt(i as u64))
        } else {
            JsonValue::Number(JsonNumber::NegInt(i))
        };
        let from_number = json_to_token(&number, &ParamType::Int(64)).unwrap();
        let from_text = json_to_token(&text(&i.to_string()), &ParamType::Int(64)).unwrap();
        assert_eq!(from_number, from_text);
        assert_eq!(
            from_number,
            Token::Int(U256 { limbs: ethers::types::I256::from(i).into_raw().0 })
        );
    }
}

#[test]
fn failed_run_inserted_anywhere_changes_nothing() {
    let base = vec![run("a", 0, 10, true), run("b", 0, 20, true), run("a", 1, 30, true)];
    let before = compute_stats(&base);
    for pos in 0..=base.len() {
        let mut with_failure = base.clone();
        with_failure.insert(pos, run("a", 9, 5, false));
        let after = compute_stats(&with_failure);
        assert_eq!(before.len(), after.len());
        for (x, y) in before.iter().zip(after.iter()) {
            assert_eq!(x.function_name, y.function_name);
            assert_eq!(x.gas_values, y.gas_values);
            assert_eq!(x.median_gas, y.median_gas);
        }
    }
}

#[test]
fn parser_error_messages() {
    assert_eq!(
        json_to_token(&text("12a"), &ParamType::Uint(256)).unwrap_err().message(),
        "a character is not in the range 0-9"
    );
    let too_big =
        "115792089237316195423570985008687907853269984665640564039457584007913129639936";
    assert_eq!(
        json_to_token(&text(too_big), &ParamType::Uint(256)).unwrap_err().message(),
        "the number is too large for the type"
    );
    assert_eq!(
        json_to_token(&text("-1x"), &ParamType::Int(256)).unwrap_err().message(),
        "invalid digit found in string"
    );
    assert_eq!(
        json_to_token(&text("-0"), &ParamType::Int(256)).unwrap_err().message(),
        "number does not fit in 256-bit integer"
    );
    let address_error = ethers::types::Address::from_str("0xzz").unwrap_err().to_string();
    assert_eq!(
        json_to_token(&text("0xzz"), &ParamType::Address).unwrap_err(),
        GasBenchError::InvalidAddress(address_error)
    );
    let hex_error = hex::decode("abc").unwrap_err().to_string();
    assert_eq!(
        json_to_token(&text("0xabc"), &ParamType::Bytes).unwrap_err(),
        GasBenchError::InvalidHex(hex_error)
    );
}

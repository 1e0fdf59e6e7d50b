use agent_viz::pricing::ModelMetadata;

fn model(id: &str, provider: &str, input: u32, output: u32, ext: Option<(u32, u32)>) -> ModelMetadata {
    ModelMetadata {
        model_id: id.to_string(),
        provider: provider.to_string(),
        input_price_per_1m: input,
        output_price_per_1m: output,
        extended_input_price_per_1m: ext.map(|e| e.0),
        extended_output_price_per_1m: ext.map(|e| e.1),
    }
}

const DOLLAR: u128 = 1_000_000_000_000;

#[test]
fn test_token_estimation() {
    assert_eq!(ModelMetadata::estimate_tokens(""), 0);
    assert_eq!(ModelMetadata::estimate_tokens("abcd"), 1);
    assert_eq!(ModelMetadata::estimate_tokens("abcde"), 2);
}

#[test]
fn token_estimate_counts_bytes() {
    // "é" takes two bytes, "€" three.
    assert_eq!(ModelMetadata::estimate_tokens("éé"), 1);
    assert_eq!(ModelMetadata::estimate_tokens("€€"), 2);
}

#[test]
fn test_cost_calculation() {
    let meta = model("test", "test", 10_000_000, 30_000_000, None);
    let cost = meta.calculate_cost(1_000_000, 1_000_000);
    assert_eq!(cost, 40 * DOLLAR);
}

#[test]
fn test_extended_cost_calculation() {
    let meta = model("test", "test", 1_000_000, 1_000_000, Some((5_000_000, 5_000_000)));
    assert_eq!(meta.calculate_cost(100_000, 100_000), DOLLAR / 5);
    let cost = meta.calculate_cost(250_000, 60_000);
    assert_eq!(cost, DOLLAR * 5 / 4 + DOLLAR * 3 / 10);
}

#[test]
fn cost_tier_boundary() {
    let meta = model("m", "p", 3_000_000, 15_000_000, Some((6_000_000, 22_500_000)));
    assert_eq!(meta.calculate_cost(200_000, 1_000), 200_000 * 3_000_000 + 1_000 * 15_000_000);
    assert_eq!(meta.calculate_cost(250_000, 1_000), 250_000 * 6_000_000 + 1_000 * 22_500_000);
}

#[test]
fn test_lookup() {
    let registry = vec![
        model("sonnet-4.5", "vendor-a", 3_000_000, 15_000_000, None),
        model("gpt-5", "openai", 1_250_000, 10_000_000, None),
    ];
    let meta = ModelMetadata::lookup(&registry, "sonnet-4.5");
    assert!(meta.is_some());
    assert_eq!(meta.unwrap().provider, "vendor-a");

    let fuzzy = ModelMetadata::lookup(&registry, "gpt-5.3");
    assert!(fuzzy.is_some());
    assert_eq!(fuzzy.unwrap().provider, "openai");
}

#[test]
fn lookup_prefers_exact_then_either_containment() {
    let registry = vec![model("gpt-5-mini", "a", 1, 1, None), model("gpt-5", "b", 1, 1, None)];
    assert_eq!(ModelMetadata::lookup(&registry, "GPT-5").unwrap().provider, "b");
    assert_eq!(ModelMetadata::lookup(&registry, "gpt").unwrap().provider, "a");
    assert!(ModelMetadata::lookup(&registry, "llama").is_none());
}

#[test]
fn pricing_table_from_json() {
    let table = agent_viz::json::parse_json(
        r#"[{"model_id":"m-large","provider":"p","input_price_per_1m":3.0,"output_price_per_1m":15,
            "extended_input_price_per_1m":6.25,"extended_output_price_per_1m":null},
           {"model_id":"broken","provider":"p","input_price_per_1m":"x","output_price_per_1m":1},
           {"model_id":"m-small","provider":"q","input_price_per_1m":0.125,"output_price_per_1m":0.5}]"#,
    )
    .unwrap();
    let reg = ModelMetadata::registry_from_json(&table);
    assert_eq!(reg.len(), 2);
    assert_eq!(reg[0].model_id, "m-large");
    assert_eq!(reg[0].input_price_per_1m, 3_000_000);
    assert_eq!(reg[0].output_price_per_1m, 15_000_000);
    assert_eq!(reg[0].extended_input_price_per_1m, Some(6_250_000));
    assert_eq!(reg[0].extended_output_price_per_1m, None);
    assert_eq!(reg[1].input_price_per_1m, 125_000);
    assert_eq!(agent_viz::pricing::price_from_text("4294.967295"), Some(4_294_967_295));
    assert_eq!(agent_viz::pricing::price_from_text("4294.967296"), None);
    assert_eq!(agent_viz::pricing::price_from_text("1.1234567"), None);
}

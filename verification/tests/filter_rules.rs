use carrot_geyser_plugin::config::{
    CarrotPluginConfig, PulsarConfig, StreamNativeOAuth2Config, TokenAccountFilter,
};
use carrot_geyser_plugin::filter::{
    ConfigError, Evaluation, FilterDecision, FilterMode, FilterSpec, TokenAccountFields,
    MINT_OFFSET, OWNER_OFFSET, TOKEN_ACCOUNT_WINDOW,
};
use carrot_geyser_plugin::identifier::{Identifier, IdentifierError};
use carrot_geyser_plugin::mapper::map_update;

const PROGRAM: [u8; 32] = [3u8; 32];
const MINT: [u8; 32] = [5u8; 32];
const HOLDER: [u8; 32] = [7u8; 32];

fn extended_filter() -> FilterSpec {
    FilterSpec {
        token_program: Identifier::new(PROGRAM),
        mint_address: Some(Identifier::new(MINT)),
        topic: "updates".to_string(),
    }
}

fn minimal_filter() -> FilterSpec {
    FilterSpec {
        token_program: Identifier::new(PROGRAM),
        mint_address: None,
        topic: "updates".to_string(),
    }
}

fn token_account(mint: &[u8; 32], holder: &[u8; 32], rest: usize) -> Vec<u8> {
    let mut data = mint.to_vec();
    data.extend_from_slice(holder);
    data.extend(std::iter::repeat(9u8).take(rest));
    data
}

fn configured(token_program: &str, mint_address: &str) -> TokenAccountFilter {
    TokenAccountFilter {
        mint_address: mint_address.to_string(),
        token_program: token_program.to_string(),
        topic: "updates".to_string(),
    }
}

fn skipped(decision: FilterDecision) -> Evaluation {
    Evaluation { decision, fields: None }
}

#[test]
fn token_account_layout() {
    assert_eq!(MINT_OFFSET, 0);
    assert_eq!(OWNER_OFFSET, 32);
    assert_eq!(TOKEN_ACCOUNT_WINDOW, 64);
}

#[test]
fn mode_follows_the_mint() {
    assert_eq!(extended_filter().mode(), FilterMode::Extended);
    assert_eq!(minimal_filter().mode(), FilterMode::Minimal);
}

#[test]
fn another_owner_is_a_mismatch_in_both_modes() {
    let data = token_account(&MINT, &HOLDER, 0);
    let other = [4u8; 32];
    assert_eq!(
        extended_filter().evaluate(&other, &data),
        skipped(FilterDecision::OwnerMismatch)
    );
    assert_eq!(
        minimal_filter().evaluate(&other, &data),
        skipped(FilterDecision::OwnerMismatch)
    );
    assert_eq!(
        extended_filter().evaluate(&PROGRAM[..31], &data),
        skipped(FilterDecision::OwnerMismatch)
    );
    assert_eq!(
        extended_filter().evaluate(&[], &data),
        skipped(FilterDecision::OwnerMismatch)
    );
    assert_eq!(
        extended_filter().evaluate(&other, &[]),
        skipped(FilterDecision::OwnerMismatch)
    );
}

#[test]
fn minimal_mode_accepts_every_account_of_the_program() {
    let filter = minimal_filter();
    assert_eq!(filter.evaluate(&PROGRAM, &[]), skipped(FilterDecision::Accept));
    assert_eq!(filter.evaluate(&PROGRAM, &[1, 2, 3]), skipped(FilterDecision::Accept));
    assert_eq!(
        filter.evaluate(&PROGRAM, &token_account(&[6u8; 32], &HOLDER, 10)),
        skipped(FilterDecision::Accept)
    );
}

#[test]
fn extended_mode_accepts_the_mint_and_reads_both_fields() {
    let data = token_account(&MINT, &HOLDER, 101);
    assert_eq!(
        extended_filter().evaluate(&PROGRAM, &data),
        Evaluation {
            decision: FilterDecision::Accept,
            fields: Some(TokenAccountFields {
                mint: Identifier::new(MINT),
                owner: Identifier::new(HOLDER),
            }),
        }
    );
    let exact = token_account(&MINT, &HOLDER, 0);
    assert_eq!(exact.len(), 64);
    assert_eq!(
        extended_filter().evaluate(&PROGRAM, &exact).decision,
        FilterDecision::Accept
    );
}

#[test]
fn extended_mode_skips_another_mint() {
    let data = token_account(&[6u8; 32], &HOLDER, 0);
    assert_eq!(
        extended_filter().evaluate(&PROGRAM, &data),
        skipped(FilterDecision::MintMismatch)
    );
    let mut nearly = MINT;
    nearly[31] = 6;
    assert_eq!(
        extended_filter().evaluate(&PROGRAM, &token_account(&nearly, &HOLDER, 5)),
        skipped(FilterDecision::MintMismatch)
    );
}

#[test]
fn extended_mode_wants_64_bytes() {
    let whole = token_account(&MINT, &HOLDER, 0);
    for len in [0usize, 1, 31, 32, 33, 63] {
        assert_eq!(
            extended_filter().evaluate(&PROGRAM, &whole[..len]),
            skipped(FilterDecision::MalformedPayload)
        );
    }
    let other = token_account(&[6u8; 32], &HOLDER, 0);
    assert_eq!(
        extended_filter().evaluate(&PROGRAM, &other[..40]),
        skipped(FilterDecision::MalformedPayload)
    );
}

#[test]
fn filter_from_decoded_identifiers() {
    let program = Identifier::new(PROGRAM);
    let mint = Identifier::new(MINT);
    assert_eq!(
        FilterSpec::from_decoded(Ok(program), Some(Ok(mint)), "updates".to_string()),
        Ok(extended_filter())
    );
    assert_eq!(
        FilterSpec::from_decoded(Ok(program), None, "updates".to_string()),
        Ok(minimal_filter())
    );
    assert_eq!(
        FilterSpec::from_decoded(Err(IdentifierError::Invalid), Some(Ok(mint)), String::new()),
        Err(ConfigError::TokenProgram(IdentifierError::Invalid))
    );
    assert_eq!(
        FilterSpec::from_decoded(Ok(program), Some(Err(IdentifierError::WrongSize)), String::new()),
        Err(ConfigError::MintAddress(IdentifierError::WrongSize))
    );
    assert_eq!(
        FilterSpec::from_decoded(
            Err(IdentifierError::WrongSize),
            Some(Err(IdentifierError::Invalid)),
            String::new()
        ),
        Err(ConfigError::TokenProgram(IdentifierError::WrongSize))
    );
    assert_eq!(
        FilterSpec::from_decoded(Err(IdentifierError::WrongSize), None, String::new()),
        Err(ConfigError::TokenProgram(IdentifierError::WrongSize))
    );
}

#[test]
fn filter_from_configured_text() {
    let program = Identifier::new(PROGRAM).to_base58();
    let mint = Identifier::new(MINT).to_base58();
    assert_eq!(
        FilterSpec::from_config(&configured(&program, &mint), FilterMode::Extended),
        Ok(extended_filter())
    );
    assert_eq!(
        FilterSpec::from_config(&configured(&program, &mint), FilterMode::Minimal),
        Ok(minimal_filter())
    );
}

#[test]
fn minimal_mode_does_not_read_the_mint() {
    let program = Identifier::new(PROGRAM).to_base58();
    assert_eq!(
        FilterSpec::from_config(&configured(&program, "no mint at all"), FilterMode::Minimal),
        Ok(minimal_filter())
    );
    assert_eq!(
        FilterSpec::from_config(&configured(&program, ""), FilterMode::Minimal),
        Ok(minimal_filter())
    );
}

#[test]
fn malformed_identifiers_are_config_errors() {
    let program = Identifier::new(PROGRAM).to_base58();
    let mint = Identifier::new(MINT).to_base58();
    assert_eq!(
        FilterSpec::from_config(&configured("0OIl", &mint), FilterMode::Extended),
        Err(ConfigError::TokenProgram(IdentifierError::Invalid))
    );
    assert_eq!(
        FilterSpec::from_config(&configured("abc", &mint), FilterMode::Extended),
        Err(ConfigError::TokenProgram(IdentifierError::WrongSize))
    );
    assert_eq!(
        FilterSpec::from_config(&configured(&program, "0OIl"), FilterMode::Extended),
        Err(ConfigError::MintAddress(IdentifierError::Invalid))
    );
    assert_eq!(
        FilterSpec::from_config(&configured(&program, ""), FilterMode::Extended),
        Err(ConfigError::MintAddress(IdentifierError::WrongSize))
    );
    assert_eq!(
        FilterSpec::from_config(&configured("abc", "0OIl"), FilterMode::Extended),
        Err(ConfigError::TokenProgram(IdentifierError::WrongSize))
    );
    assert_eq!(
        FilterSpec::from_config(&configured("0OIl", "whatever"), FilterMode::Minimal),
        Err(ConfigError::TokenProgram(IdentifierError::Invalid))
    );
}

#[test]
fn config_splits_into_connection_and_filter() {
    let config = CarrotPluginConfig {
        pulsar_url: "pulsar+ssl://broker:6651".to_string(),
        streamnative_oauth2: StreamNativeOAuth2Config {
            issuer_url: "https://issuer".to_string(),
            credentials_url: "file:///key.json".to_string(),
            audience: "urn:sn:pulsar:o:i".to_string(),
        },
        token_account_filter: configured("program", "mint"),
    };
    let (connection, filter) = config.into_parts();
    assert_eq!(
        connection,
        PulsarConfig {
            pulsar_url: "pulsar+ssl://broker:6651".to_string(),
            issuer_url: "https://issuer".to_string(),
            credentials_url: "file:///key.json".to_string(),
            audience: "urn:sn:pulsar:o:i".to_string(),
        }
    );
    assert_eq!(filter, configured("program", "mint"));
}

#[test]
fn mapper_renders_identifiers_and_keeps_numbers() {
    let pubkey = Identifier::new([1u8; 32]);
    let fields = TokenAccountFields {
        mint: Identifier::new(MINT),
        owner: Identifier::new(HOLDER),
    };
    let data = token_account(&MINT, &HOLDER, 3);
    let message = map_update(&pubkey, 100, 5, Some(fields), &data);
    assert_eq!(message.pubkey, pubkey.to_base58());
    assert_eq!(message.pubkey, "4vJ9JU1bJJE96FWSJKvHsmmFADCg4gpZQff4P3bkLKi");
    assert_eq!(message.slot, 100);
    assert_eq!(message.write_version, 5);
    assert_eq!(message.token_account_owner, Some(Identifier::new(HOLDER).to_base58()));
    assert_eq!(message.account_data, Some(data));
}

#[test]
fn mapper_leaves_out_owner_and_bytes_in_the_minimal_mode() {
    let pubkey = Identifier::new([1u8; 32]);
    let message = map_update(&pubkey, u64::MAX, 0, None, &[1, 2, 3]);
    assert_eq!(message.pubkey, pubkey.to_base58());
    assert_eq!(message.slot, u64::MAX);
    assert_eq!(message.write_version, 0);
    assert_eq!(message.token_account_owner, None);
    assert_eq!(message.account_data, None);
}

use moonrabbit::chain_spec::{
    moonrabbit_development_config, moonrabbit_development_config_genesis,
    moonrabbit_local_testnet_config, moonrabbit_local_testnet_genesis,
    moonrabbit_session_keys, moonrabbit_staging_testnet_config,
    moonrabbit_staging_testnet_config_genesis, moonrabbit_testnet_genesis, ChainType, Forcing,
    RococoGenesisExt, SessionKeys, StakerStatus, DEFAULT_PROTOCOL_ID,
    MOONRABBIT_STAGING_TELEMETRY_URL,
};
use moonrabbit::keys::{
    get_account_id_from_seed, get_authority_keys_from_seed, get_authority_keys_from_seed_no_beefy,
    get_ecdsa_from_seed, get_from_seed, testnet_accounts, AuthorityKeys, KeyScheme,
};

fn hex32(s: &str) -> [u8; 32] {
    let mut out = [0u8; 32];
    for i in 0..32 {
        out[i] = u8::from_str_radix(&s[2 * i..2 * i + 2], 16).unwrap();
    }
    out
}

const ALICE: &str = "d43593c715fdd31c61141abd04a99fd6822c8558854ccde39a5684e7a56da27d";
const ALICE_STASH: &str = "be5ddb1579b72e84524fc29e78609e3caf42e85aa118ebfe0b0ad404b5bdd25f";
const BOB: &str = "8eaf04151687736326c9fea17e25fc5287613693c912909cb226aa4794f26a48";
const ALICE_ED25519: &str = "88dc3417d5058ec4b4503e0c12ea1a0a89be200fe98922423d4334014fa6b0ee";
const UNITS: u128 = 10_000_000_000;

#[test]
fn development_keys_are_the_well_known_ones() {
    assert_eq!(get_account_id_from_seed("Alice"), Some(hex32(ALICE)));
    assert_eq!(get_account_id_from_seed("Bob"), Some(hex32(BOB)));
    assert_eq!(get_account_id_from_seed("Alice//stash"), Some(hex32(ALICE_STASH)));
    assert_eq!(get_from_seed(KeyScheme::Ed25519, "Alice"), Some(hex32(ALICE_ED25519)));
    let beefy = get_ecdsa_from_seed("Alice").unwrap();
    assert_eq!(beefy[0], 0x02);
    assert_eq!(beefy[1..5], [0x0a, 0x10, 0x91, 0x34]);
}

#[test]
fn authority_keys_of_a_seed() {
    let k = get_authority_keys_from_seed_no_beefy("Alice").unwrap();
    assert_eq!(k.stash, hex32(ALICE_STASH));
    assert_eq!(k.controller, hex32(ALICE));
    assert_eq!(k.babe, hex32(ALICE));
    assert_eq!(k.grandpa, hex32(ALICE_ED25519));
    assert_eq!(k.im_online, hex32(ALICE));
    assert_eq!(k.para_validator, hex32(ALICE));
    assert_eq!(k.para_assignment, hex32(ALICE));
    assert_eq!(k.authority_discovery, hex32(ALICE));
    let (k2, beefy) = get_authority_keys_from_seed("Alice").unwrap();
    assert_eq!(k2, k);
    assert_eq!(Some(beefy), get_ecdsa_from_seed("Alice"));
}

#[test]
fn an_invalid_seed_derives_nothing() {
    // ed25519 keys have no soft derivation
    assert_eq!(get_from_seed(KeyScheme::Ed25519, "Alice/soft"), None);
    assert!(get_from_seed(KeyScheme::Sr25519, "Alice/soft").is_some());
    assert_eq!(get_authority_keys_from_seed_no_beefy("Alice/soft"), None);
}

#[test]
fn testnet_accounts_are_the_six_names_and_their_stashes() {
    let accounts = testnet_accounts().unwrap();
    assert_eq!(accounts.len(), 12);
    assert_eq!(accounts[0], hex32(ALICE));
    assert_eq!(accounts[1], hex32(BOB));
    assert_eq!(accounts[6], hex32(ALICE_STASH));
    assert_eq!(accounts[11], get_account_id_from_seed("Ferdie//stash").unwrap());
}

#[test]
fn session_keys_are_gathered_in_order() {
    let keys = moonrabbit_session_keys([1; 32], [2; 32], [3; 32], [4; 32], [5; 32], [6; 32]);
    assert_eq!(
        keys,
        SessionKeys {
            babe: [1; 32],
            grandpa: [2; 32],
            im_online: [3; 32],
            para_validator: [4; 32],
            para_assignment: [5; 32],
            authority_discovery: [6; 32],
        }
    );
}

fn authority(n: u8) -> AuthorityKeys {
    AuthorityKeys {
        stash: [n; 32],
        controller: [n + 1; 32],
        babe: [n + 2; 32],
        grandpa: [n + 3; 32],
        im_online: [n + 4; 32],
        para_validator: [n + 5; 32],
        para_assignment: [n + 6; 32],
        authority_discovery: [n + 7; 32],
    }
}

#[test]
fn testnet_genesis_endows_accounts_and_stakes_authorities() {
    let plan = moonrabbit_testnet_genesis(
        &[9, 9, 9],
        vec![authority(10), authority(20)],
        [0; 32],
        Some(vec![[1; 32], [2; 32]]),
        UNITS,
    )
    .unwrap();
    assert_eq!(plan.code, vec![9, 9, 9]);
    assert_eq!(plan.balances, vec![([1; 32], 1_000_000 * UNITS), ([2; 32], 1_000_000 * UNITS)]);
    assert_eq!(plan.session_keys.len(), 2);
    assert_eq!(plan.session_keys[1].0, [20; 32]);
    assert_eq!(plan.session_keys[1].1, [20; 32]);
    assert_eq!(plan.session_keys[1].2.babe, [22; 32]);
    assert_eq!(plan.session_keys[1].2.authority_discovery, [27; 32]);
    assert_eq!(plan.validator_count, 2);
    assert_eq!(plan.minimum_validator_count, 1);
    assert_eq!(
        plan.stakers,
        vec![
            ([10; 32], [11; 32], 100 * UNITS, StakerStatus::Validator),
            ([20; 32], [21; 32], 100 * UNITS, StakerStatus::Validator),
        ]
    );
    assert_eq!(plan.invulnerables, vec![[10; 32], [20; 32]]);
    assert_eq!(plan.force_era, Forcing::NotForcing);
    assert_eq!(plan.slash_reward_fraction_percent, 10);
}

#[test]
fn testnet_genesis_defaults_to_the_test_accounts() {
    let plan = moonrabbit_testnet_genesis(&[], vec![], [0; 32], None, 1).unwrap();
    assert_eq!(plan.balances.len(), 12);
    assert_eq!(plan.balances[0], (hex32(ALICE), 1_000_000));
    assert!(plan.stakers.is_empty());
}

#[test]
fn development_and_local_genesis() {
    let dev = moonrabbit_development_config_genesis(&[1], UNITS).unwrap();
    assert_eq!(dev.stakers.len(), 1);
    assert_eq!(dev.stakers[0].0, hex32(ALICE_STASH));
    assert_eq!(dev.stakers[0].1, hex32(ALICE));
    assert_eq!(dev.balances.len(), 12);
    let local = moonrabbit_local_testnet_genesis(&[1], UNITS).unwrap();
    assert_eq!(local.stakers.len(), 2);
    assert_eq!(local.stakers[1].1, hex32(BOB));
    assert_eq!(local.invulnerables[0], hex32(ALICE_STASH));
}

#[test]
fn staging_genesis_is_empty_with_fifty_validators() {
    let plan = moonrabbit_staging_testnet_config_genesis(&[4, 2], UNITS);
    assert_eq!(plan.code, vec![4, 2]);
    assert!(plan.balances.is_empty());
    assert!(plan.session_keys.is_empty());
    assert!(plan.stakers.is_empty());
    assert!(plan.invulnerables.is_empty());
    assert_eq!(plan.validator_count, 50);
    assert_eq!(plan.minimum_validator_count, 4);
    assert_eq!(plan.force_era, Forcing::ForceNone);
}

#[test]
fn chain_spec_configs() {
    let dev = moonrabbit_development_config(Some(&[0u8][..]), UNITS).unwrap();
    assert_eq!(dev.name, "Development");
    assert_eq!(dev.id, "dev");
    assert_eq!(dev.chain_type, ChainType::Development);
    assert!(dev.telemetry.is_empty());
    assert_eq!(dev.protocol_id, DEFAULT_PROTOCOL_ID);
    let local = moonrabbit_local_testnet_config(Some(&[0u8][..]), UNITS).unwrap();
    assert_eq!((local.name.as_str(), local.id.as_str()), ("Local Testnet", "local_testnet"));
    assert_eq!(local.chain_type, ChainType::Local);
    let staging = moonrabbit_staging_testnet_config(Some(&[0u8][..]), UNITS).unwrap();
    assert_eq!(staging.name, "moonrabbit Staging Testnet");
    assert_eq!(staging.id, "moonrabbit_staging_testnet");
    assert_eq!(staging.chain_type, ChainType::Live);
    assert_eq!(staging.telemetry, vec![(MOONRABBIT_STAGING_TELEMETRY_URL.to_string(), 0)]);
    assert_eq!(staging.protocol_id, "dot");
    assert!(dev.boot_nodes.is_empty() && local.boot_nodes.is_empty() && staging.boot_nodes.is_empty());
    let g = staging.genesis.unwrap();
    assert_eq!(g.code, vec![0]);
    assert_eq!(g.validator_count, 50);
    let g = local.genesis.unwrap();
    assert_eq!(g.code, vec![0]);
    assert_eq!(g.stakers.len(), 2);
    assert_eq!(g.stakers[0].1, hex32(ALICE));
    assert_eq!(g.stakers[1].1, hex32(BOB));
    let g = dev.genesis.unwrap();
    assert_eq!(g.stakers.len(), 1);
    assert_eq!(g.stakers[0].0, hex32(ALICE_STASH));
}

#[test]
fn configs_need_the_runtime_code() {
    let missing = "moonrabbit development wasm not available".to_string();
    assert_eq!(moonrabbit_development_config(None, UNITS).err(), Some(missing.clone()));
    assert_eq!(moonrabbit_local_testnet_config(None, UNITS).err(), Some(missing.clone()));
    assert_eq!(moonrabbit_staging_testnet_config(None, UNITS).err(), Some(missing));
}

#[test]
fn rococo_genesis_ext_holds_an_optional_session_length() {
    let ext = RococoGenesisExt { session_length_in_blocks: Some(10) };
    assert_eq!(ext.session_length_in_blocks, Some(10));
    assert_eq!(RococoGenesisExt { session_length_in_blocks: None }.session_length_in_blocks, None);
}

//! The chain specifications the node ships: their names and ids, and the
//! genesis state (balances, session keys, staking) each one starts from.

use vstd::prelude::*;
use vstd::string::*;
use vstd::slice::slice_to_vec;
use crate::keys::{
    authority_keys_of, dev_uri, get_account_id_from_seed, get_authority_keys_from_seed_no_beefy,
    sr25519_public_of, testnet_accounts, testnet_seeds, AccountId, AuthorityKeys,
};

verus! {

/// The telemetry endpoint of the staging chain.
pub const MOONRABBIT_STAGING_TELEMETRY_URL: &'static str = "wss://telemetry.moonrabbit.io/submit/";

/// The network protocol id of every chain shipped here.
pub const DEFAULT_PROTOCOL_ID: &'static str = "dot";

/// A validator's session keys.
#[derive(PartialEq, Eq, Clone, Copy, Debug)]
pub struct SessionKeys {
    pub babe: [u8; 32],
    pub grandpa: [u8; 32],
    pub im_online: [u8; 32],
    pub para_validator: [u8; 32],
    pub para_assignment: [u8; 32],
    pub authority_discovery: [u8; 32],
}

/// When the staking pallet forces a new era.
#[derive(PartialEq, Eq, Structural, Clone, Copy, Debug)]
pub enum Forcing {
    NotForcing,
    ForceNew,
    ForceNone,
    ForceAlways,
}

/// What a genesis staker is.
#[derive(PartialEq, Eq, Structural, Clone, Copy, Debug)]
pub enum StakerStatus {
    Idle,
    Validator,
}

/// The genesis state a chain starts from.
pub struct GenesisPlan {
    /// The runtime's code.
    pub code: Vec<u8>,
    /// Endowed accounts and their free balances.
    pub balances: Vec<(AccountId, u128)>,
    /// Session keys: account, validator id, keys.
    pub session_keys: Vec<(AccountId, AccountId, SessionKeys)>,
    /// The number of validators staking aims for.
    pub validator_count: u32,
    /// The fewest validators staking accepts.
    pub minimum_validator_count: u32,
    /// Stash, controller, bonded amount and role of each genesis staker.
    pub stakers: Vec<(AccountId, AccountId, u128, StakerStatus)>,
    /// Validators that are never slashed.
    pub invulnerables: Vec<AccountId>,
    /// The era forcing mode.
    pub force_era: Forcing,
    /// The share of a slash paid as reward, in percent.
    pub slash_reward_fraction_percent: u32,
}

/// The kinds of chain.
#[derive(PartialEq, Eq, Structural, Clone, Copy, Debug)]
pub enum ChainType {
    Development,
    Local,
    Live,
}

/// The name, id and network settings of a chain specification.
pub struct ChainSpecInfo {
    pub name: String,
    pub id: String,
    pub chain_type: ChainType,
    /// The nodes a new node first connects to.
    pub boot_nodes: Vec<String>,
    /// Telemetry endpoints with their verbosity.
    pub telemetry: Vec<(String, u8)>,
    pub protocol_id: String,
    /// The genesis state; `None` when the development keys it needs could
    /// not be derived.
    pub genesis: Option<GenesisPlan>,
}

/// Extension for the Rococo genesis config to support a custom changes to the
/// genesis state.
#[derive(Debug, Clone, Copy, PartialEq, Eq, Structural)]
pub struct RococoGenesisExt {
    /// The session length in blocks.
    ///
    /// If `None` is supplied, the default value is used.
    pub session_length_in_blocks: Option<u32>,
}

/// The session keys of an authority.
pub open spec fn session_keys_spec(k: AuthorityKeys) -> SessionKeys {
    SessionKeys {
        babe: k.babe,
        grandpa: k.grandpa,
        im_online: k.im_online,
        para_validator: k.para_validator,
        para_assignment: k.para_assignment,
        authority_discovery: k.authority_discovery,
    }
}

/// Gathers six keys into a validator's session keys.
pub fn moonrabbit_session_keys(
    babe: [u8; 32],
    grandpa: [u8; 32],
    im_online: [u8; 32],
    para_validator: [u8; 32],
    para_assignment: [u8; 32],
    authority_discovery: [u8; 32],
) -> (r: SessionKeys)
    ensures
        r == (SessionKeys {
            babe,
            grandpa,
            im_online,
            para_validator,
            para_assignment,
            authority_discovery,
        }),
{
    SessionKeys { babe, grandpa, im_online, para_validator, para_assignment, authority_discovery }
}

/// Each account with the same balance.
pub open spec fn endowments(accounts: Seq<AccountId>, amount: u128) -> Seq<(AccountId, u128)> {
    accounts.map_values(|a: AccountId| (a, amount))
}

/// Each authority's stash with the same balance.
pub open spec fn stash_endowments(auths: Seq<AuthorityKeys>, amount: u128) -> Seq<(AccountId, u128)> {
    auths.map_values(|x: AuthorityKeys| (x.stash, amount))
}

/// Each authority's session keys, registered for its stash.
pub open spec fn session_entries(auths: Seq<AuthorityKeys>) -> Seq<(AccountId, AccountId, SessionKeys)> {
    auths.map_values(|x: AuthorityKeys| (x.stash, x.stash, session_keys_spec(x)))
}

/// Each authority as a validating staker bonding `amount`.
pub open spec fn staker_entries(auths: Seq<AuthorityKeys>, amount: u128) -> Seq<
    (AccountId, AccountId, u128, StakerStatus),
> {
    auths.map_values(|x: AuthorityKeys| (x.stash, x.controller, amount, StakerStatus::Validator))
}

/// Each authority's stash.
pub open spec fn stashes(auths: Seq<AuthorityKeys>) -> Seq<AccountId> {
    auths.map_values(|x: AuthorityKeys| x.stash)
}

fn endow(out: &mut Vec<(AccountId, u128)>, accounts: &Vec<AccountId>, amount: u128)
    ensures
        final(out)@ == old(out)@ + endowments(accounts@, amount),
{
    let ghost start = out@;
    let mut i: usize = 0;
    while i < accounts.len()
        invariant
            i <= accounts.len(),
            out@ == start + endowments(accounts@.subrange(0, i as int), amount),
        decreases accounts.len() - i,
    {
        out.push((accounts[i], amount));
        proof {
            assert(endowments(accounts@.subrange(0, i + 1), amount) =~= endowments(
                accounts@.subrange(0, i as int),
                amount,
            ).push((accounts@[i as int], amount)));
        }
        i = i + 1;
    }
    assert(accounts@.subrange(0, accounts.len() as int) =~= accounts@);
}

fn endow_stashes(out: &mut Vec<(AccountId, u128)>, auths: &Vec<AuthorityKeys>, amount: u128)
    ensures
        final(out)@ == old(out)@ + stash_endowments(auths@, amount),
{
    let ghost start = out@;
    let mut i: usize = 0;
    while i < auths.len()
        invariant
            i <= auths.len(),
            out@ == start + stash_endowments(auths@.subrange(0, i as int), amount),
        decreases auths.len() - i,
    {
        out.push((auths[i].stash, amount));
        proof {
            assert(stash_endowments(auths@.subrange(0, i + 1), amount) =~= stash_endowments(
                auths@.subrange(0, i as int),
                amount,
            ).push((auths@[i as int].stash, amount)));
        }
        i = i + 1;
    }
    assert(auths@.subrange(0, auths.len() as int) =~= auths@);
}

fn session_keys_of(auths: &Vec<AuthorityKeys>) -> (r: Vec<(AccountId, AccountId, SessionKeys)>)
    ensures
        r@ == session_entries(auths@),
{
    let mut out: Vec<(AccountId, AccountId, SessionKeys)> = Vec::new();
    let mut i: usize = 0;
    while i < auths.len()
        invariant
            i <= auths.len(),
            out@ == session_entries(auths@.subrange(0, i as int)),
        decreases auths.len() - i,
    {
        let x = auths[i];
        let keys = moonrabbit_session_keys(
            x.babe,
            x.grandpa,
            x.im_online,
            x.para_validator,
            x.para_assignment,
            x.authority_discovery,
        );
        out.push((x.stash, x.stash, keys));
        proof {
            assert(session_entries(auths@.subrange(0, i + 1)) =~= session_entries(
                auths@.subrange(0, i as int),
            ).push((x.stash, x.stash, session_keys_spec(x))));
        }
        i = i + 1;
    }
    assert(auths@.subrange(0, auths.len() as int) =~= auths@);
    out
}

fn stakers_of(auths: &Vec<AuthorityKeys>, amount: u128) -> (r: Vec<
    (AccountId, AccountId, u128, StakerStatus),
>)
    ensures
        r@ == staker_entries(auths@, amount),
{
    let mut out: Vec<(AccountId, AccountId, u128, StakerStatus)> = Vec::new();
    let mut i: usize = 0;
    while i < auths.len()
        invariant
            i <= auths.len(),
            out@ == staker_entries(auths@.subrange(0, i as int), amount),
        decreases auths.len() - i,
    {
        out.push((auths[i].stash, auths[i].controller, amount, StakerStatus::Validator));
        proof {
            assert(staker_entries(auths@.subrange(0, i + 1), amount) =~= staker_entries(
                auths@.subrange(0, i as int),
                amount,
            ).push((auths@[i as int].stash, auths@[i as int].controller, amount, StakerStatus::Validator)));
        }
        i = i + 1;
    }
    assert(auths@.subrange(0, auths.len() as int) =~= auths@);
    out
}

fn stashes_of(auths: &Vec<AuthorityKeys>) -> (r: Vec<AccountId>)
    ensures
        r@ == stashes(auths@),
{
    let mut out: Vec<AccountId> = Vec::new();
    let mut i: usize = 0;
    while i < auths.len()
        invariant
            i <= auths.len(),
            out@ == stashes(auths@.subrange(0, i as int)),
        decreases auths.len() - i,
    {
        out.push(auths[i].stash);
        proof {
            assert(stashes(auths@.subrange(0, i + 1)) =~= stashes(auths@.subrange(0, i as int)).push(
                auths@[i as int].stash,
            ));
        }
        i = i + 1;
    }
    assert(auths@.subrange(0, auths.len() as int) =~= auths@);
    out
}

/// The balance each endowed account starts with: a million units.
pub open spec fn endowment(units: u128) -> u128 {
    (1_000_000 * units) as u128
}

/// The balance each authority's stash bonds: a hundred units.
pub open spec fn stash(units: u128) -> u128 {
    (100 * units) as u128
}

/// The genesis of a test chain run by `auths`, endowing `endowed` with a
/// million units each (`units` is the runtime's unit of currency).
pub open spec fn testnet_genesis_spec(
    plan: GenesisPlan,
    code: Seq<u8>,
    auths: Seq<AuthorityKeys>,
    endowed: Seq<AccountId>,
    units: u128,
) -> bool {
    &&& plan.code@ == code
    &&& plan.balances@ == endowments(endowed, endowment(units))
    &&& plan.session_keys@ == session_entries(auths)
    &&& plan.minimum_validator_count == 1
    &&& plan.validator_count == 2
    &&& plan.stakers@ == staker_entries(auths, stash(units))
    &&& plan.invulnerables@ == stashes(auths)
    &&& plan.force_era == Forcing::NotForcing
    &&& plan.slash_reward_fraction_percent == 10
}

/// The genesis of a test chain run by `initial_authorities`. The endowed
/// accounts are `endowed_accounts`, or the test accounts when none are given
/// (`None` when deriving those fails). `root_key` is not used.
pub fn moonrabbit_testnet_genesis(
    wasm_binary: &[u8],
    initial_authorities: Vec<AuthorityKeys>,
    root_key: AccountId,
    endowed_accounts: Option<Vec<AccountId>>,
    units: u128,
) -> (r: Option<GenesisPlan>)
    requires
        1_000_000 * units <= u128::MAX,
    ensures
        r is None <==> (endowed_accounts is None && testnet_account_list() is None),
        r matches Some(plan) ==> testnet_genesis_spec(
            plan,
            wasm_binary@,
            initial_authorities@,
            match endowed_accounts {
                Some(v) => v@,
                None => testnet_account_list()->0,
            },
            units,
        ),
{
    let endowed = match endowed_accounts {
        Some(v) => v,
        None => match testnet_accounts() {
            Some(v) => v,
            None => {
                proof {
                    lemma_testnet_accounts_agree();
                }
                return None;
            },
        },
    };
    proof {
        lemma_testnet_accounts_agree();
    }
    let endowment_amount: u128 = 1_000_000 * units;
    let stash_amount: u128 = 100 * units;
    let mut balances: Vec<(AccountId, u128)> = Vec::new();
    endow(&mut balances, &endowed, endowment_amount);
    let code = slice_to_vec(wasm_binary);
    Some(
        GenesisPlan {
            code,
            balances,
            session_keys: session_keys_of(&initial_authorities),
            validator_count: 2,
            minimum_validator_count: 1,
            stakers: stakers_of(&initial_authorities, stash_amount),
            invulnerables: stashes_of(&initial_authorities),
            force_era: Forcing::NotForcing,
            slash_reward_fraction_percent: 10,
        },
    )
}

/// The test accounts as a whole: the accounts of the twelve test seeds,
/// `None` if one of them does not derive.
pub open spec fn testnet_account_list() -> Option<Seq<AccountId>> {
    if forall|i: int| 0 <= i < 12 ==> #[trigger] sr25519_public_of(dev_uri(testnet_seeds()[i])) is Some {
        Some(Seq::new(12, |i: int| sr25519_public_of(dev_uri(testnet_seeds()[i]))->0))
    } else {
        None
    }
}

proof fn lemma_testnet_accounts_agree()
    ensures
        forall|v: Vec<AccountId>|
            (v@.len() == 12 && forall|i: int|
                0 <= i < 12 ==> sr25519_public_of(dev_uri(#[trigger] testnet_seeds()[i])) == Some(v@[i]))
                ==> testnet_account_list() == Some(v@),
{
    assert forall|v: Vec<AccountId>|
        (v@.len() == 12 && forall|i: int|
            0 <= i < 12 ==> sr25519_public_of(dev_uri(#[trigger] testnet_seeds()[i])) == Some(v@[i]))
        implies testnet_account_list() == Some(v@) by {
        assert(Seq::new(12, |i: int| sr25519_public_of(dev_uri(testnet_seeds()[i]))->0) =~= v@);
    }
}

/// The genesis of the staging chain: no endowed accounts and no authorities
/// yet, fifty validators wanted, at least four, and no forced eras.
pub open spec fn staging_genesis_spec(plan: GenesisPlan, code: Seq<u8>) -> bool {
    &&& plan.code@ == code
    &&& plan.balances@.len() == 0
    &&& plan.session_keys@.len() == 0
    &&& plan.validator_count == 50
    &&& plan.minimum_validator_count == 4
    &&& plan.stakers@.len() == 0
    &&& plan.invulnerables@.len() == 0
    &&& plan.force_era == Forcing::ForceNone
    &&& plan.slash_reward_fraction_percent == 10
}

/// The genesis of the staging chain. Its lists of endowed accounts and of
/// authorities are empty; were they not, the accounts would get a million
/// units and the authorities' stashes a hundred.
pub fn moonrabbit_staging_testnet_config_genesis(wasm_binary: &[u8], units: u128) -> (r: GenesisPlan)
    requires
        1_000_000 * units <= u128::MAX,
    ensures
        staging_genesis_spec(r, wasm_binary@),
{
    let endowed_accounts: Vec<AccountId> = Vec::new();
    let initial_authorities: Vec<AuthorityKeys> = Vec::new();
    let endowment_amount: u128 = 1_000_000 * units;
    let stash_amount: u128 = 100 * units;
    let mut balances: Vec<(AccountId, u128)> = Vec::new();
    endow(&mut balances, &endowed_accounts, endowment_amount);
    endow_stashes(&mut balances, &initial_authorities, stash_amount);
    GenesisPlan {
        code: slice_to_vec(wasm_binary),
        balances,
        session_keys: session_keys_of(&initial_authorities),
        validator_count: 50,
        minimum_validator_count: 4,
        stakers: stakers_of(&initial_authorities, stash_amount),
        invulnerables: stashes_of(&initial_authorities),
        force_era: Forcing::ForceNone,
        slash_reward_fraction_percent: 10,
    }
}

/// The development chain's genesis: a test chain run by Alice alone.
pub fn moonrabbit_development_config_genesis(wasm_binary: &[u8], units: u128) -> (r: Option<
    GenesisPlan,
>)
    requires
        1_000_000 * units <= u128::MAX,
    ensures
        r is Some <==> (authority_keys_of("Alice"@) is Some && testnet_account_list() is Some
            && sr25519_public_of(dev_uri("Alice"@)) is Some),
        r matches Some(plan) ==> testnet_genesis_spec(
            plan,
            wasm_binary@,
            seq![authority_keys_of("Alice"@)->0],
            testnet_account_list()->0,
            units,
        ),
{
    let seeds: [&str; 1] = ["Alice"];
    proof {
        let names = seeds@.map_values(|s: &str| s@);
        assert(names =~= seq!["Alice"@]);
        if authority_keys_of("Alice"@) is Some {
            assert(keys_of_seeds(names)->0 =~= seq![authority_keys_of("Alice"@)->0]);
        } else {
            assert(!(authority_keys_of(names[0]) is Some));
        }
    }
    authorities_genesis(wasm_binary, &seeds, units)
}

/// The local test chain's genesis: a test chain run by Alice and Bob.
pub fn moonrabbit_local_testnet_genesis(wasm_binary: &[u8], units: u128) -> (r: Option<GenesisPlan>)
    requires
        1_000_000 * units <= u128::MAX,
    ensures
        r is Some <==> (authority_keys_of("Alice"@) is Some && authority_keys_of("Bob"@) is Some
            && testnet_account_list() is Some && sr25519_public_of(dev_uri("Alice"@)) is Some),
        r matches Some(plan) ==> testnet_genesis_spec(
            plan,
            wasm_binary@,
            seq![authority_keys_of("Alice"@)->0, authority_keys_of("Bob"@)->0],
            testnet_account_list()->0,
            units,
        ),
{
    let seeds: [&str; 2] = ["Alice", "Bob"];
    proof {
        let names = seeds@.map_values(|s: &str| s@);
        assert(names =~= seq!["Alice"@, "Bob"@]);
        if authority_keys_of("Alice"@) is Some && authority_keys_of("Bob"@) is Some {
            assert(keys_of_seeds(names)->0 =~= seq![
                authority_keys_of("Alice"@)->0,
                authority_keys_of("Bob"@)->0,
            ]);
        } else if !(authority_keys_of("Alice"@) is Some) {
            assert(!(authority_keys_of(names[0]) is Some));
        } else {
            assert(!(authority_keys_of(names[1]) is Some));
        }
    }
    authorities_genesis(wasm_binary, &seeds, units)
}

/// The keys of each seed, in order, if every one derives.
pub open spec fn keys_of_seeds(seeds: Seq<Seq<char>>) -> Option<Seq<AuthorityKeys>> {
    if forall|i: int| 0 <= i < seeds.len() ==> #[trigger] authority_keys_of(seeds[i]) is Some {
        Some(Seq::new(seeds.len(), |i: int| authority_keys_of(seeds[i])->0))
    } else {
        None
    }
}

fn authorities_genesis(wasm_binary: &[u8], seeds: &[&str], units: u128) -> (r: Option<GenesisPlan>)
    requires
        1_000_000 * units <= u128::MAX,
    ensures
        r is Some <==> (keys_of_seeds(seeds@.map_values(|s: &str| s@)) is Some
            && testnet_account_list() is Some && sr25519_public_of(dev_uri("Alice"@)) is Some),
        r matches Some(plan) ==> testnet_genesis_spec(
            plan,
            wasm_binary@,
            keys_of_seeds(seeds@.map_values(|s: &str| s@))->0,
            testnet_account_list()->0,
            units,
        ),
{
    let ghost names = seeds@.map_values(|s: &str| s@);
    let mut auths: Vec<AuthorityKeys> = Vec::new();
    let mut i: usize = 0;
    while i < seeds.len()
        invariant
            i <= seeds.len(),
            names == seeds@.map_values(|s: &str| s@),
            auths@.len() == i,
            forall|k: int| 0 <= k < i ==> authority_keys_of(#[trigger] names[k]) == Some(auths@[k]),
        decreases seeds.len() - i,
    {
        match get_authority_keys_from_seed_no_beefy(seeds[i]) {
            Some(k) => auths.push(k),
            None => {
                assert(authority_keys_of(names[i as int]) is None);
                return None;
            },
        }
        i = i + 1;
    }
    assert(keys_of_seeds(names) == Some(auths@)) by {
        assert(Seq::new(names.len(), |k: int| authority_keys_of(names[k])->0) =~= auths@);
    }
    let root = match get_account_id_from_seed("Alice") {
        Some(a) => a,
        None => return None,
    };
    moonrabbit_testnet_genesis(wasm_binary, auths, root, None, units)
}

/// A chain specification's name, id and settings, without boot nodes, when
/// the runtime's code is there; otherwise the error that says the code is
/// missing.
pub open spec fn config_result(
    wasm_binary: Option<Seq<u8>>,
    name: Seq<char>,
    id: Seq<char>,
    chain_type: ChainType,
    r: Result<ChainSpecInfo, String>,
) -> bool {
    match wasm_binary {
        None => r matches Err(e) && e@ == "moonrabbit development wasm not available"@,
        Some(_) => r matches Ok(info) && {
            &&& info.name@ == name
            &&& info.id@ == id
            &&& info.chain_type == chain_type
            &&& info.boot_nodes@.len() == 0
            &&& info.protocol_id@ == DEFAULT_PROTOCOL_ID@
        },
    }
}

/// The genesis of a test chain run by the authorities of `seeds`, endowing
/// the test accounts, on the runtime code `code`: present exactly when every
/// key it needs derives (the authorities', the test accounts' and Alice's,
/// who is the root).
pub open spec fn seeded_genesis(genesis: Option<GenesisPlan>, code: Seq<u8>, seeds: Seq<Seq<char>>, units: u128) -> bool {
    &&& genesis is Some <==> (keys_of_seeds(seeds) is Some && testnet_account_list() is Some
        && sr25519_public_of(dev_uri("Alice"@)) is Some)
    &&& genesis matches Some(plan) ==> testnet_genesis_spec(
        plan,
        code,
        keys_of_seeds(seeds)->0,
        testnet_account_list()->0,
        units,
    )
}

fn wasm_missing() -> (r: String)
    ensures
        r@ == "moonrabbit development wasm not available"@,
{
    String::from_str("moonrabbit development wasm not available")
}

/// The development chain's specification: "Development", id "dev", no boot
/// nodes, no telemetry, and the development genesis (Alice alone). Fails
/// when the runtime's code was not built.
pub fn moonrabbit_development_config(wasm_binary: Option<&[u8]>, units: u128) -> (r: Result<ChainSpecInfo, String>)
    requires
        1_000_000 * units <= u128::MAX,
    ensures
        config_result(
            match wasm_binary {
                Some(w) => Some(w@),
                None => None,
            },
            "Development"@,
            "dev"@,
            ChainType::Development,
            r,
        ),
        r matches Ok(info) ==> info.telemetry@.len() == 0 && seeded_genesis(
            info.genesis,
            wasm_binary->0@,
            seq!["Alice"@],
            units,
        ),
{
    let w = match wasm_binary {
        Some(w) => w,
        None => return Err(wasm_missing()),
    };
    let genesis = moonrabbit_development_config_genesis(w, units);
    proof {
        let names = seq!["Alice"@];
        if authority_keys_of("Alice"@) is Some {
            assert(keys_of_seeds(names)->0 =~= seq![authority_keys_of("Alice"@)->0]);
        } else {
            assert(!(authority_keys_of(names[0]) is Some));
        }
    }
    Ok(
        ChainSpecInfo {
            name: String::from_str("Development"),
            id: String::from_str("dev"),
            chain_type: ChainType::Development,
            boot_nodes: Vec::new(),
            telemetry: Vec::new(),
            protocol_id: String::from_str(DEFAULT_PROTOCOL_ID),
            genesis,
        },
    )
}

/// The local test chain's specification: "Local Testnet", id
/// "local_testnet", no boot nodes, no telemetry, and the genesis of a chain
/// run by Alice and Bob.
pub fn moonrabbit_local_testnet_config(wasm_binary: Option<&[u8]>, units: u128) -> (r: Result<ChainSpecInfo, String>)
    requires
        1_000_000 * units <= u128::MAX,
    ensures
        config_result(
            match wasm_binary {
                Some(w) => Some(w@),
                None => None,
            },
            "Local Testnet"@,
            "local_testnet"@,
            ChainType::Local,
            r,
        ),
        r matches Ok(info) ==> info.telemetry@.len() == 0 && seeded_genesis(
            info.genesis,
            wasm_binary->0@,
            seq!["Alice"@, "Bob"@],
            units,
        ),
{
    let w = match wasm_binary {
        Some(w) => w,
        None => return Err(wasm_missing()),
    };
    let genesis = moonrabbit_local_testnet_genesis(w, units);
    proof {
        let names = seq!["Alice"@, "Bob"@];
        if authority_keys_of("Alice"@) is Some && authority_keys_of("Bob"@) is Some {
            assert(keys_of_seeds(names)->0 =~= seq![
                authority_keys_of("Alice"@)->0,
                authority_keys_of("Bob"@)->0,
            ]);
        } else if !(authority_keys_of("Alice"@) is Some) {
            assert(!(authority_keys_of(names[0]) is Some));
        } else {
            assert(!(authority_keys_of(names[1]) is Some));
        }
    }
    Ok(
        ChainSpecInfo {
            name: String::from_str("Local Testnet"),
            id: String::from_str("local_testnet"),
            chain_type: ChainType::Local,
            boot_nodes: Vec::new(),
            telemetry: Vec::new(),
            protocol_id: String::from_str(DEFAULT_PROTOCOL_ID),
            genesis,
        },
    )
}

/// The staging chain's specification: "moonrabbit Staging Testnet", id
/// "moonrabbit_staging_testnet", a live chain with no boot nodes yet,
/// reporting to the staging telemetry endpoint at verbosity 0, with the
/// staging genesis.
pub fn moonrabbit_staging_testnet_config(wasm_binary: Option<&[u8]>, units: u128) -> (r: Result<ChainSpecInfo, String>)
    requires
        1_000_000 * units <= u128::MAX,
    ensures
        config_result(
            match wasm_binary {
                Some(w) => Some(w@),
                None => None,
            },
            "moonrabbit Staging Testnet"@,
            "moonrabbit_staging_testnet"@,
            ChainType::Live,
            r,
        ),
        r matches Ok(info) ==> {
            &&& info.telemetry@.len() == 1
            &&& info.telemetry@[0].0@ == MOONRABBIT_STAGING_TELEMETRY_URL@
            &&& info.telemetry@[0].1 == 0
            &&& info.genesis matches Some(g) && staging_genesis_spec(g, wasm_binary->0@)
        },
{
    let w = match wasm_binary {
        Some(w) => w,
        None => return Err(wasm_missing()),
    };
    let mut telemetry: Vec<(String, u8)> = Vec::new();
    telemetry.push((String::from_str(MOONRABBIT_STAGING_TELEMETRY_URL), 0));
    Ok(
        ChainSpecInfo {
            name: String::from_str("moonrabbit Staging Testnet"),
            id: String::from_str("moonrabbit_staging_testnet"),
            chain_type: ChainType::Live,
            boot_nodes: Vec::new(),
            telemetry,
            protocol_id: String::from_str(DEFAULT_PROTOCOL_ID),
            genesis: Some(moonrabbit_staging_testnet_config_genesis(w, units)),
        },
    )
}

/// The staging genesis depends on the runtime code only: two staging
/// geneses agree in every field but the code, which is each one's own.
pub proof fn staging_genesis_differs_only_in_code(p1: GenesisPlan, w1: Seq<u8>, p2: GenesisPlan, w2: Seq<u8>)
    requires
        staging_genesis_spec(p1, w1),
        staging_genesis_spec(p2, w2),
    ensures
        p1.code@ == w1,
        p2.code@ == w2,
        p1.balances@ == p2.balances@,
        p1.session_keys@ == p2.session_keys@,
        p1.validator_count == p2.validator_count,
        p1.minimum_validator_count == p2.minimum_validator_count,
        p1.stakers@ == p2.stakers@,
        p1.invulnerables@ == p2.invulnerables@,
        p1.force_era == p2.force_era,
        p1.slash_reward_fraction_percent == p2.slash_reward_fraction_percent,
{
    assert(p1.balances@ =~= p2.balances@);
    assert(p1.session_keys@ =~= p2.session_keys@);
    assert(p1.stakers@ =~= p2.stakers@);
    assert(p1.invulnerables@ =~= p2.invulnerables@);
}

} // verus!

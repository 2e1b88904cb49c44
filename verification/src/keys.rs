//! Development keys derived from well-known seeds ("Alice", "Bob", ...) with
//! `sp-core`, and the BLAKE2 hash it provides.

use vstd::prelude::*;
use vstd::string::*;
use sp_core::{ecdsa, ed25519, sr25519, Blake2Hasher, Hasher, Pair};

verus! {

/// An account id: the 32 bytes of an sr25519 public key.
pub type AccountId = [u8; 32];

/// The sr25519 public key that the secret URI `suri` derives, if it is valid
/// (what `sr25519::Pair::from_string(suri, None)` gives).
pub uninterp spec fn sr25519_public_of(suri: Seq<char>) -> Option<[u8; 32]>;

/// The ed25519 public key that the secret URI `suri` derives, if it is valid.
pub uninterp spec fn ed25519_public_of(suri: Seq<char>) -> Option<[u8; 32]>;

/// The compressed ecdsa public key that the secret URI `suri` derives, if it
/// is valid.
pub uninterp spec fn ecdsa_public_of(suri: Seq<char>) -> Option<[u8; 33]>;

/// The 256-bit BLAKE2b digest of a byte string.
pub uninterp spec fn blake2_256_of(data: Seq<u8>) -> Seq<u8>;

/// `sr25519::Pair::from_string(suri, None)` of `sp-core`, then `public()`.
/// Trusted: the key is a function of the URI alone; `None` when the URI does
/// not parse or derive.
#[verifier::external_body]
fn sr25519_public(suri: &str) -> (r: Option<[u8; 32]>)
    ensures
        r == sr25519_public_of(suri@),
{
    match sr25519::Pair::from_string(suri, None) {
        Ok(pair) => Some(pair.public().0),
        Err(_) => None,
    }
}

/// `ed25519::Pair::from_string(suri, None)` of `sp-core`, then `public()`.
/// Trusted as `sr25519_public`.
#[verifier::external_body]
fn ed25519_public(suri: &str) -> (r: Option<[u8; 32]>)
    ensures
        r == ed25519_public_of(suri@),
{
    match ed25519::Pair::from_string(suri, None) {
        Ok(pair) => Some(pair.public().0),
        Err(_) => None,
    }
}

/// `ecdsa::Pair::from_string(suri, None)` of `sp-core`, then `public()`.
/// Trusted as `sr25519_public`.
#[verifier::external_body]
fn ecdsa_public(suri: &str) -> (r: Option<[u8; 33]>)
    ensures
        r == ecdsa_public_of(suri@),
{
    match ecdsa::Pair::from_string(suri, None) {
        Ok(pair) => Some(pair.public().0),
        Err(_) => None,
    }
}

/// `<Blake2Hasher as Hasher>::hash` of `sp-core` (BLAKE2b with a 32-byte
/// output). Trusted: the digest is a function of the data alone.
#[verifier::external_body]
pub(crate) fn blake2_256(data: &[u8]) -> (r: [u8; 32])
    ensures
        r@ == blake2_256_of(data@),
{
    <Blake2Hasher as Hasher>::hash(data).0
}

/// The signature schemes of the node's keys.
#[derive(PartialEq, Eq, Structural, Clone, Copy, Debug)]
pub enum KeyScheme {
    Sr25519,
    Ed25519,
}

/// The secret URI of a development seed: the seed as a hard junction of the
/// development phrase.
pub open spec fn dev_uri(seed: Seq<char>) -> Seq<char> {
    "//"@ + seed
}

/// The public key of a scheme that a secret URI derives.
pub open spec fn public_of(scheme: KeyScheme, suri: Seq<char>) -> Option<[u8; 32]> {
    match scheme {
        KeyScheme::Sr25519 => sr25519_public_of(suri),
        KeyScheme::Ed25519 => ed25519_public_of(suri),
    }
}

/// The development secret URI of `seed`.
fn seed_uri(seed: &str) -> (r: String)
    ensures
        r@ == dev_uri(seed@),
{
    String::from_str("//").concat(seed)
}

/// The public key of `scheme` derived from a development seed; `None` when
/// the derivation fails.
pub fn get_from_seed(scheme: KeyScheme, seed: &str) -> (r: Option<[u8; 32]>)
    ensures
        r == public_of(scheme, dev_uri(seed@)),
{
    let uri = seed_uri(seed);
    match scheme {
        KeyScheme::Sr25519 => sr25519_public(uri.as_str()),
        KeyScheme::Ed25519 => ed25519_public(uri.as_str()),
    }
}

/// The ecdsa public key derived from a development seed.
pub fn get_ecdsa_from_seed(seed: &str) -> (r: Option<[u8; 33]>)
    ensures
        r == ecdsa_public_of(dev_uri(seed@)),
{
    let uri = seed_uri(seed);
    ecdsa_public(uri.as_str())
}

/// The account of a development seed: its sr25519 public key.
pub fn get_account_id_from_seed(seed: &str) -> (r: Option<AccountId>)
    ensures
        r == sr25519_public_of(dev_uri(seed@)),
{
    get_from_seed(KeyScheme::Sr25519, seed)
}

/// A validator's stash and controller accounts and session keys.
#[derive(PartialEq, Eq, Clone, Copy, Debug)]
pub struct AuthorityKeys {
    pub stash: AccountId,
    pub controller: AccountId,
    pub babe: [u8; 32],
    pub grandpa: [u8; 32],
    pub im_online: [u8; 32],
    pub para_validator: [u8; 32],
    pub para_assignment: [u8; 32],
    pub authority_discovery: [u8; 32],
}

/// The seed of a stash account.
pub open spec fn stash_seed(seed: Seq<char>) -> Seq<char> {
    seed + "//stash"@
}

/// The keys derived from `seed`: the stash from "<seed>//stash", everything
/// else from `seed`, GRANDPA with ed25519 and the rest with sr25519. `None`
/// when a derivation fails.
pub open spec fn authority_keys_of(seed: Seq<char>) -> Option<AuthorityKeys> {
    let sr = sr25519_public_of(dev_uri(seed));
    let stash = sr25519_public_of(dev_uri(stash_seed(seed)));
    let ed = ed25519_public_of(dev_uri(seed));
    if sr is Some && stash is Some && ed is Some {
        Some(
            AuthorityKeys {
                stash: stash->0,
                controller: sr->0,
                babe: sr->0,
                grandpa: ed->0,
                im_online: sr->0,
                para_validator: sr->0,
                para_assignment: sr->0,
                authority_discovery: sr->0,
            },
        )
    } else {
        None
    }
}

/// A development authority's sr25519 session keys are all its controller's
/// key, and its stash differs in derivation only by the "//stash" junction.
pub proof fn dev_session_keys_share_controller_key(seed: Seq<char>)
    requires
        authority_keys_of(seed) is Some,
    ensures
        ({
            let k = authority_keys_of(seed)->0;
            &&& k.babe == k.controller
            &&& k.im_online == k.controller
            &&& k.para_validator == k.controller
            &&& k.para_assignment == k.controller
            &&& k.authority_discovery == k.controller
            &&& Some(k.controller) == sr25519_public_of(dev_uri(seed))
            &&& Some(k.stash) == sr25519_public_of(dev_uri(stash_seed(seed)))
            &&& Some(k.grandpa) == ed25519_public_of(dev_uri(seed))
        }),
{
}

/// Stash, controller and session keys from a development seed.
pub fn get_authority_keys_from_seed_no_beefy(seed: &str) -> (r: Option<AuthorityKeys>)
    ensures
        r == authority_keys_of(seed@),
{
    let stash_name = String::from_str(seed).concat("//stash");
    let stash = get_account_id_from_seed(stash_name.as_str());
    let controller = get_account_id_from_seed(seed);
    let babe = get_from_seed(KeyScheme::Sr25519, seed);
    let grandpa = get_from_seed(KeyScheme::Ed25519, seed);
    let im_online = get_from_seed(KeyScheme::Sr25519, seed);
    let para_validator = get_from_seed(KeyScheme::Sr25519, seed);
    let para_assignment = get_from_seed(KeyScheme::Sr25519, seed);
    let authority_discovery = get_from_seed(KeyScheme::Sr25519, seed);
    match (stash, controller, babe, grandpa, im_online, para_validator, para_assignment, authority_discovery) {
        (Some(stash), Some(controller), Some(babe), Some(grandpa), Some(im_online), Some(para_validator), Some(para_assignment), Some(authority_discovery)) => Some(
            AuthorityKeys {
                stash,
                controller,
                babe,
                grandpa,
                im_online,
                para_validator,
                para_assignment,
                authority_discovery,
            },
        ),
        _ => None,
    }
}

/// The keys of `get_authority_keys_from_seed_no_beefy` and the BEEFY (ecdsa)
/// key of the same seed.
pub fn get_authority_keys_from_seed(seed: &str) -> (r: Option<(AuthorityKeys, [u8; 33])>)
    ensures
        r == match (authority_keys_of(seed@), ecdsa_public_of(dev_uri(seed@))) {
            (Some(k), Some(b)) => Some((k, b)),
            _ => None,
        },
{
    let keys = get_authority_keys_from_seed_no_beefy(seed);
    let beefy = get_ecdsa_from_seed(seed);
    match (keys, beefy) {
        (Some(k), Some(b)) => Some((k, b)),
        _ => None,
    }
}

/// The seeds of the endowed test accounts: six names, then their stashes.
pub open spec fn testnet_seeds() -> Seq<Seq<char>> {
    seq![
        "Alice"@, "Bob"@, "Charlie"@, "Dave"@, "Eve"@, "Ferdie"@,
        "Alice//stash"@, "Bob//stash"@, "Charlie//stash"@, "Dave//stash"@, "Eve//stash"@,
        "Ferdie//stash"@,
    ]
}

/// The endowed test accounts; `None` when a derivation fails.
pub fn testnet_accounts() -> (r: Option<Vec<AccountId>>)
    ensures
        (forall|i: int| 0 <= i < 12 ==> #[trigger] sr25519_public_of(dev_uri(testnet_seeds()[i])) is Some)
            ==> r is Some,
        r matches Some(v) ==> v@.len() == 12 && forall|i: int|
            0 <= i < 12 ==> sr25519_public_of(dev_uri(#[trigger] testnet_seeds()[i])) == Some(v@[i]),
{
    let seeds: [&str; 12] = [
        "Alice", "Bob", "Charlie", "Dave", "Eve", "Ferdie",
        "Alice//stash", "Bob//stash", "Charlie//stash", "Dave//stash", "Eve//stash", "Ferdie//stash",
    ];
    let mut out: Vec<AccountId> = Vec::new();
    let mut i: usize = 0;
    while i < 12
        invariant
            i <= 12,
            out@.len() == i,
            forall|k: int| 0 <= k < 12 ==> (#[trigger] seeds@[k])@ == testnet_seeds()[k],
            forall|k: int|
                0 <= k < i ==> sr25519_public_of(dev_uri(#[trigger] testnet_seeds()[k])) == Some(out@[k]),
        decreases 12 - i,
    {
        match get_account_id_from_seed(seeds[i]) {
            Some(a) => out.push(a),
            None => {
                assert(sr25519_public_of(dev_uri(testnet_seeds()[i as int])) is None);
                return None;
            },
        }
        i = i + 1;
    }
    Some(out)
}

} // verus!

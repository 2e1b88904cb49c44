//! The decisions the node's command line makes before it hands over to the
//! service: which chain specification an id names, which SS58 format and
//! which runtime a chain gets, and which subcommands need a dev chain.

use vstd::prelude::*;
use vstd::string::*;

verus! {

/// The start of the error given when a dev-only subcommand runs on another chain.
pub const DEV_ONLY_ERROR_PATTERN: &'static str =
    "can only use subcommand with --chain [moonrabbit-dev, kusama-dev, westend-dev, rococo-dev, wococo-dev], got ";

/// Whether `s` begins with `prefix`.
pub open spec fn has_prefix(s: Seq<char>, prefix: Seq<char>) -> bool {
    prefix.len() <= s.len() && s.subrange(0, prefix.len() as int) == prefix
}

/// Whether the string `s` begins with `prefix`.
pub fn starts_with(s: &str, prefix: &str) -> (r: bool)
    ensures
        r == has_prefix(s@, prefix@),
{
    let n = prefix.unicode_len();
    let m = s.unicode_len();
    if n > m {
        return false;
    }
    let mut i: usize = 0;
    while i < n
        invariant
            n == prefix@.len(),
            m == s@.len(),
            n <= m,
            i <= n,
            forall|j: int| 0 <= j < i ==> s@[j] == prefix@[j],
        decreases n - i,
    {
        if s.get_char(i) != prefix.get_char(i) {
            assert(s@.subrange(0, n as int)[i as int] != prefix@[i as int]);
            return false;
        }
        i = i + 1;
    }
    assert(s@.subrange(0, n as int) =~= prefix@);
    true
}

/// Whether `s` ends with `suffix`.
pub open spec fn has_suffix(s: Seq<char>, suffix: Seq<char>) -> bool {
    suffix.len() <= s.len() && s.subrange(s.len() - suffix.len(), s.len() as int) == suffix
}

/// Whether the string `s` ends with `suffix`.
pub fn ends_with(s: &str, suffix: &str) -> (r: bool)
    ensures
        r == has_suffix(s@, suffix@),
{
    let n = suffix.unicode_len();
    let m = s.unicode_len();
    if n > m {
        return false;
    }
    let off = m - n;
    let mut i: usize = 0;
    while i < n
        invariant
            n == suffix@.len(),
            m == s@.len(),
            n <= m,
            off == m - n,
            i <= n,
            forall|j: int| 0 <= j < i ==> s@[off + j] == suffix@[j],
        decreases n - i,
    {
        if s.get_char(off + i) != suffix.get_char(i) {
            assert(s@.subrange(off as int, m as int)[i as int] != suffix@[i as int]);
            return false;
        }
        i = i + 1;
    }
    assert(s@.subrange(off as int, m as int) =~= suffix@);
    true
}

/// Whether the chain of id `id` is a development chain: its id ends with
/// "dev".
pub fn chain_is_dev(id: &str) -> (r: bool)
    ensures
        r == has_suffix(id@, "dev"@),
{
    ends_with(id, "dev")
}

/// Whether the chain of id `id` is Kusama: its id starts with "kusama" or
/// "ksm".
pub fn chain_is_kusama(id: &str) -> (r: bool)
    ensures
        r == (has_prefix(id@, "kusama"@) || has_prefix(id@, "ksm"@)),
{
    starts_with(id, "kusama") || starts_with(id, "ksm")
}

/// Whether the chain of id `id` is Westend: its id starts with "westend" or
/// "wnd".
pub fn chain_is_westend(id: &str) -> (r: bool)
    ensures
        r == (has_prefix(id@, "westend"@) || has_prefix(id@, "wnd"@)),
{
    starts_with(id, "westend") || starts_with(id, "wnd")
}

/// Whether two strings are equal.
pub fn str_eq(a: &str, b: &str) -> (r: bool)
    ensures
        r == (a@ == b@),
{
    let x = String::from_str(a);
    let y = String::from_str(b);
    x == y
}

/// The error of a dev-only subcommand run on the chain `id`.
pub open spec fn dev_only_error(id: Seq<char>) -> Seq<char> {
    DEV_ONLY_ERROR_PATTERN@ + id
}

/// Succeeds on a dev chain; on any other chain fails with the dev-only
/// message followed by the chain's id.
pub fn ensure_dev(is_dev: bool, id: &str) -> (r: Result<(), String>)
    ensures
        r is Ok <==> is_dev,
        r matches Err(e) ==> e@ == dev_only_error(id@),
{
    if is_dev {
        Ok(())
    } else {
        let e = String::from_str(DEV_ONLY_ERROR_PATTERN);
        Err(e.concat(id))
    }
}

/// The chain id used when none is given: the first known chain whose name
/// begins the executable's name, else the default chain. Both known names
/// are "moonrabbit", and so is the default.
pub open spec fn default_chain_id() -> Seq<char> {
    "moonrabbit"@
}

/// The chain id that `id` stands for, given the executable's name: `id`
/// itself, or the default chain's id when `id` is empty.
pub fn resolve_chain_id(id: &str, exec_name: &str) -> (r: String)
    ensures
        r@ == (if id@.len() == 0 { default_chain_id() } else { id@ }),
{
    if id.unicode_len() != 0 {
        return String::from_str(id);
    }
    let known: [&str; 2] = ["moonrabbit", "moonrabbit"];
    let mut i: usize = 0;
    while i < 2
        invariant
            i <= 2,
            id@.len() == 0,
            known@ == seq!["moonrabbit", "moonrabbit"],
        decreases 2 - i,
    {
        if starts_with(exec_name, known[i]) {
            return String::from_str(known[i]);
        }
        i = i + 1;
    }
    String::from_str("moonrabbit")
}

/// Where the chain specification for a chain id comes from.
#[derive(PartialEq, Eq, Structural, Clone, Copy, Debug)]
pub enum ChainSpecSource {
    /// The bundled moonrabbit specification.
    Moonrabbit,
    /// The single-validator development chain.
    Development,
    /// The local multi-validator test chain.
    LocalTestnet,
    /// The staging test chain.
    StagingTestnet,
    /// A JSON file at the given path; `moonrabbit_runtime` when it is read as
    /// the moonrabbit runtime's specification type.
    JsonFile { moonrabbit_runtime: bool },
}

/// The source of the specification for the resolved chain id `id`; for a
/// path, `force` and the file name decide how it is read.
pub open spec fn chain_spec_source(
    id: Seq<char>,
    force_moonrabbit: bool,
    file_name: Option<Seq<char>>,
) -> ChainSpecSource {
    if id == "moonrabbit"@ {
        ChainSpecSource::Moonrabbit
    } else if id == "moonrabbit-dev"@ || id == "dev"@ {
        ChainSpecSource::Development
    } else if id == "moonrabbit-local"@ {
        ChainSpecSource::LocalTestnet
    } else if id == "moonrabbit-staging"@ {
        ChainSpecSource::StagingTestnet
    } else {
        ChainSpecSource::JsonFile {
            moonrabbit_runtime: force_moonrabbit || match file_name {
                Some(f) => has_prefix(f, "moonrabbit"@),
                None => false,
            },
        }
    }
}

/// Only the exact bundled names select bundled specifications: "moonrabbit"
/// the moonrabbit one, "moonrabbit-dev" or "dev" the development chain,
/// "moonrabbit-local" the local test chain, "moonrabbit-staging" the staging
/// chain; every other id, however close to one of these, names a JSON file.
pub proof fn bundled_specs_need_exact_names(
    id: Seq<char>,
    force_moonrabbit: bool,
    file_name: Option<Seq<char>>,
)
    ensures
        chain_spec_source(id, force_moonrabbit, file_name) == ChainSpecSource::Moonrabbit <==> id
            == "moonrabbit"@,
        chain_spec_source(id, force_moonrabbit, file_name) == ChainSpecSource::Development <==> (id
            == "moonrabbit-dev"@ || id == "dev"@),
        chain_spec_source(id, force_moonrabbit, file_name) == ChainSpecSource::LocalTestnet <==> id
            == "moonrabbit-local"@,
        chain_spec_source(id, force_moonrabbit, file_name) == ChainSpecSource::StagingTestnet <==> id
            == "moonrabbit-staging"@,
        chain_spec_source(id, force_moonrabbit, file_name) is JsonFile <==> (id != "moonrabbit"@ && id
            != "moonrabbit-dev"@ && id != "dev"@ && id != "moonrabbit-local"@ && id
            != "moonrabbit-staging"@),
{
    reveal_strlit("moonrabbit");
    reveal_strlit("moonrabbit-dev");
    reveal_strlit("dev");
    reveal_strlit("moonrabbit-local");
    reveal_strlit("moonrabbit-staging");
    assert("moonrabbit"@.len() == 10);
    assert("moonrabbit-dev"@.len() == 14);
    assert("dev"@.len() == 3);
    assert("moonrabbit-local"@.len() == 16);
    assert("moonrabbit-staging"@.len() == 18);
}

/// Which specification the `--chain` value `id` selects. `exec_name` is the
/// executable's file name, used when `id` is empty; `file_name` is the last
/// component of `id` read as a path, if it has one.
pub fn select_chain_spec(
    id: &str,
    exec_name: &str,
    force_moonrabbit: bool,
    file_name: Option<&str>,
) -> (r: ChainSpecSource)
    ensures
        r == chain_spec_source(
            if id@.len() == 0 { default_chain_id() } else { id@ },
            force_moonrabbit,
            match file_name {
                Some(f) => Some(f@),
                None => None,
            },
        ),
{
    let resolved = resolve_chain_id(id, exec_name);
    let id = resolved.as_str();
    if str_eq(id, "moonrabbit") {
        ChainSpecSource::Moonrabbit
    } else if str_eq(id, "moonrabbit-dev") || str_eq(id, "dev") {
        ChainSpecSource::Development
    } else if str_eq(id, "moonrabbit-local") {
        ChainSpecSource::LocalTestnet
    } else if str_eq(id, "moonrabbit-staging") {
        ChainSpecSource::StagingTestnet
    } else {
        let named = match file_name {
            Some(f) => starts_with(f, "moonrabbit"),
            None => false,
        };
        ChainSpecSource::JsonFile { moonrabbit_runtime: force_moonrabbit || named }
    }
}

/// The SS58 address formats a node can default to.
#[derive(PartialEq, Eq, Structural, Clone, Copy, Debug)]
pub enum Ss58Format {
    /// Kusama accounts.
    KusamaAccount,
    /// Generic Substrate accounts.
    SubstrateAccount,
    /// Moonrabbit accounts.
    MoonrabbitAccount,
}

/// The default SS58 format for a chain: Kusama's on Kusama, the generic one
/// on Westend, moonrabbit's on every other chain.
pub fn ss58_format(is_kusama: bool, is_westend: bool) -> (r: Ss58Format)
    ensures
        r == (if is_kusama {
            Ss58Format::KusamaAccount
        } else if is_westend {
            Ss58Format::SubstrateAccount
        } else {
            Ss58Format::MoonrabbitAccount
        }),
{
    if is_kusama {
        Ss58Format::KusamaAccount
    } else if is_westend {
        Ss58Format::SubstrateAccount
    } else {
        Ss58Format::MoonrabbitAccount
    }
}

/// The runtimes a benchmark can run against.
#[derive(PartialEq, Eq, Structural, Clone, Copy, Debug)]
pub enum BenchmarkRuntime {
    /// Kusama's runtime.
    Kusama,
    /// Westend's runtime.
    Westend,
    /// Moonrabbit's runtime, taken for every other chain.
    Moonrabbit,
}

/// The runtime a benchmark runs against for a chain.
pub fn benchmark_runtime(is_kusama: bool, is_westend: bool) -> (r: BenchmarkRuntime)
    ensures
        r == (if is_kusama {
            BenchmarkRuntime::Kusama
        } else if is_westend {
            BenchmarkRuntime::Westend
        } else {
            BenchmarkRuntime::Moonrabbit
        }),
{
    if is_kusama {
        BenchmarkRuntime::Kusama
    } else if is_westend {
        BenchmarkRuntime::Westend
    } else {
        BenchmarkRuntime::Moonrabbit
    }
}

/// The GRANDPA pause given on the command line: none when no values were
/// given, else the first two values (delay and length).
pub fn grandpa_pause(values: &Vec<u32>) -> (r: Option<(u32, u32)>)
    requires
        values.len() != 1,
    ensures
        r == (if values.len() == 0 {
            None
        } else {
            Some((values[0], values[1]))
        }),
{
    if values.len() == 0 {
        None
    } else {
        Some((values[0], values[1]))
    }
}

/// The node's subcommands.
#[derive(PartialEq, Eq, Structural, Clone, Copy, Debug)]
pub enum SubcommandKind {
    BuildSpec,
    CheckBlock,
    ExportBlocks,
    ExportState,
    ImportBlocks,
    PurgeChain,
    Revert,
    PvfPrepareWorker,
    PvfExecuteWorker,
    Benchmark,
    Key,
    TryRuntime,
}

/// Whether running `cmd` (`None`: the node itself) first sets the default
/// SS58 format from the chain specification.
pub fn sets_ss58_format(cmd: Option<SubcommandKind>) -> (r: bool)
    ensures
        r == match cmd {
            None => true,
            Some(c) => !(c == SubcommandKind::BuildSpec || c == SubcommandKind::PurgeChain
                || c == SubcommandKind::PvfPrepareWorker || c == SubcommandKind::PvfExecuteWorker
                || c == SubcommandKind::Key),
        },
{
    match cmd {
        None => true,
        Some(SubcommandKind::BuildSpec) => false,
        Some(SubcommandKind::PurgeChain) => false,
        Some(SubcommandKind::PvfPrepareWorker) => false,
        Some(SubcommandKind::PvfExecuteWorker) => false,
        Some(SubcommandKind::Key) => false,
        Some(_) => true,
    }
}

/// Whether `cmd` may only run on a dev chain (it is then checked with
/// `ensure_dev`).
pub fn needs_dev_chain(cmd: Option<SubcommandKind>) -> (r: bool)
    ensures
        r == (cmd == Some(SubcommandKind::Benchmark) || cmd == Some(SubcommandKind::TryRuntime)),
{
    match cmd {
        Some(SubcommandKind::Benchmark) => true,
        Some(SubcommandKind::TryRuntime) => true,
        _ => false,
    }
}

/// The implementation's name.
pub fn impl_name() -> (r: String)
    ensures
        r@ == "moonrabbit moonrabbit"@,
{
    String::from_str("moonrabbit moonrabbit")
}

/// Where to report issues.
pub fn support_url() -> (r: String)
    ensures
        r@ == "https://github.com/moonRabbitAZ/moonrabbit/issues/new"@,
{
    String::from_str("https://github.com/moonRabbitAZ/moonrabbit/issues/new")
}

/// The first year of the copyright notice.
pub fn copyright_start_year() -> (r: i32)
    ensures
        r == 2017,
{
    2017
}

/// The executable's name.
pub fn executable_name() -> (r: String)
    ensures
        r@ == "moonrabbit"@,
{
    String::from_str("moonrabbit")
}

} // verus!

//! Which build produced a payload: the CLI version, the linked engine version,
//! and the capability tokens this build can emit.
//!
//! The engine version is the engine's release tag, never the CLI's own number:
//! reporting the one as the other is the defect this block exists to end. It is
//! not a contract version either; the schema a payload follows is named by that
//! schema's `$id`.
use vstd::prelude::*;

use crate::lockfile::{engine_version, spec_engine_version};

verus! {

broadcast use vstd::string::group_string_axioms;

/// What this build can emit, as tokens. A consumer asserts that it needs a
/// token; it never compares versions. The vocabulary is open: a new token must
/// not break a consumer written against an older list.
pub const CAPABILITIES: [&'static str; 4] = [
    "binding_census",
    "metrics_envelope",
    "suspicions",
    "specific_shaped",
];

/// The capability tokens, as sequences of characters.
pub open spec fn capability_views() -> Seq<Seq<char>> {
    seq!["binding_census"@, "metrics_envelope"@, "suspicions"@, "specific_shaped"@]
}

/// The engine version a lockfile names for the linked `quire-rs`, or
/// `unknown` when it names none: never a fallback to the CLI's own number.
pub open spec fn spec_resolved_engine(lock: Seq<char>) -> Seq<char> {
    match spec_engine_version(lock) {
        Some(v) => v,
        None => "unknown"@,
    }
}

/// The engine version the lockfile `lock` pins, as [`engine_version`] reads
/// it; `unknown` when the lockfile names no `quire-rs`.
pub fn resolve_engine_version(lock: &str) -> (v: String)
    ensures
        v@ == spec_resolved_engine(lock@),
{
    match engine_version(lock) {
        Some(v) => v,
        None => {
            proof {
                reveal_strlit("unknown");
            }
            String::from_str("unknown")
        },
    }
}

/// The provenance block carried by every JSON payload, under the `engine` key.
#[derive(Debug, Clone, PartialEq, Eq)]
pub struct Provenance {
    /// The CLI crate version.
    pub cli: String,
    /// The linked engine version, verbatim.
    pub engine: String,
    /// Capability tokens; see [`CAPABILITIES`].
    pub capabilities: [&'static str; 4],
}

/// The characters of an array of tokens.
pub open spec fn token_views(a: [&'static str; 4]) -> Seq<Seq<char>> {
    seq![a[0]@, a[1]@, a[2]@, a[3]@]
}

impl Provenance {
    /// The provenance of a build whose own version is `cli` and whose
    /// lockfile is `lock`: the engine version is resolved from the lockfile,
    /// never taken from a constant.
    pub fn current(cli: &str, lock: &str) -> (p: Self)
        ensures
            p.cli@ == cli@,
            p.engine@ == spec_resolved_engine(lock@),
            token_views(p.capabilities) == capability_views(),
    {
        let p = Provenance {
            cli: String::from_str(cli),
            engine: resolve_engine_version(lock),
            capabilities: CAPABILITIES,
        };
        proof {
            assert(p.capabilities[0]@ == "binding_census"@);
            assert(p.capabilities[1]@ == "metrics_envelope"@);
            assert(p.capabilities[2]@ == "suspicions"@);
            assert(p.capabilities[3]@ == "specific_shaped"@);
        }
        p
    }
}

/// The `--version` line: `<cli> (engine <engine>)`.
pub open spec fn spec_version_line(cli: Seq<char>, engine: Seq<char>) -> Seq<char> {
    cli + " (engine "@ + engine + ")"@
}

/// The `--version` line: both versions on one line, the engine's labelled, so
/// that neither can be mistaken for the other.
pub fn version_line(p: &Provenance) -> (line: String)
    ensures
        line@ == spec_version_line(p.cli@, p.engine@),
{
    let mut line = String::from_str(p.cli.as_str());
    line.append(" (engine ");
    line.append(p.engine.as_str());
    line.append(")");
    line
}

/// Each capability token is non-empty and no token occurs twice.
pub proof fn law_capabilities_are_distinct()
    ensures
        forall|i: int| 0 <= i < 4 ==> #[trigger] capability_views()[i].len() > 0,
        forall|i: int, j: int|
            0 <= i < j < 4 ==> capability_views()[i] != capability_views()[j],
{
    reveal_strlit("binding_census");
    reveal_strlit("metrics_envelope");
    reveal_strlit("suspicions");
    reveal_strlit("specific_shaped");
    let c = capability_views();
    assert(c[0].len() == 14 && c[1].len() == 16 && c[2].len() == 10 && c[3].len() == 15);
}

/// The reported engine version is what the lockfile pins for `quire-rs`
/// (its git pin, else its stanza's version); where the lockfile names no
/// `quire-rs`, it says `unknown` rather than guess.
pub proof fn law_engine_version_is_read_from_the_lockfile(lock: Seq<char>)
    ensures
        spec_engine_version(lock) matches Some(v) ==> spec_resolved_engine(lock) == v,
        spec_engine_version(lock) is None ==> spec_resolved_engine(lock) == "unknown"@,
{
}

/// The version line names both versions and labels the engine's: the CLI's
/// version opens it, `engine` follows after ` (`, then the engine's version.
pub proof fn law_version_line_names_both(cli: Seq<char>, engine: Seq<char>)
    ensures
        spec_version_line(cli, engine).subrange(0, cli.len() as int) == cli,
        spec_version_line(cli, engine).subrange(cli.len() + 9int, cli.len() + 9int + engine.len())
            == engine,
        spec_version_line(cli, engine).subrange(cli.len() + 2int, cli.len() + 8int) == "engine"@,
{
    reveal_strlit(" (engine ");
    reveal_strlit("engine");
    reveal_strlit(")");
    let l = spec_version_line(cli, engine);
    let n = cli.len() as int;
    assert(l.subrange(0, n) =~= cli);
    assert(l.subrange(n + 9, n + 9 + engine.len()) =~= engine);
    assert(l.subrange(n + 2, n + 8) =~= "engine"@);
}

} // verus!

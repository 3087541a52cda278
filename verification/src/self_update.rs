//! Self-update for a CLI distributed as a static binary.
//!
//! The module is package-agnostic: everything a concrete CLI supplies arrives
//! through [`SelfUpdateConfig`]. The binary can arrive through more than one
//! install channel, so an update first works out how it was installed and then
//! drives the matching package manager. The running version is never compared
//! with the registry's: the npm wrapper and the crate are numbered apart, and
//! npm and cargo already do nothing when up to date.
//!
//! The decisions live here as a small state machine. [`run_for_source`] says
//! what to do first: report at once, or run one package-manager command. The
//! caller runs that command and hands its [`CommandOutcome`] to
//! the finishing function of its channel ([`finish_npm_update`],
//! [`finish_cargo_update`]), which says what the update amounts to.
use vstd::prelude::*;

use crate::text::{after_first, after_first_chars, before_first, before_first_chars, chars_of,
    push_chars, split_chars, split_on, trim, trim_chars, string_of, same_chars};
use crate::tsv::texts;

verus! {

broadcast use vstd::string::group_string_axioms;

/// How the running binary was placed on disk, which decides the package
/// manager (if any) that can upgrade it.
#[derive(Debug, Clone, Copy, PartialEq, Eq, Structural)]
pub enum InstallSource {
    /// Installed through npm: the executable lives under a `node_modules` tree.
    Npm,
    /// Installed with `cargo install`: the executable lives under `.cargo`.
    Cargo,
    /// Any other placement; no upgrade command can safely be guessed.
    Unknown,
}

/// The only CLI-specific data the update needs.
pub struct SelfUpdateConfig {
    /// npm package name, e.g. `@agent-ix/quire-cli`.
    pub npm_package: &'static str,
    /// Git repository for `cargo install --git`.
    pub cargo_git: &'static str,
    /// Releases page named on the manual path.
    pub releases_url: &'static str,
}

/// Options from the command line.
pub struct SelfUpdateOpts {
    /// Report availability without installing.
    pub check: bool,
    /// Override the npm registry (npm channel only).
    pub registry: Option<String>,
}

/// What the update decided or did.
#[derive(Debug, Clone, PartialEq, Eq)]
pub enum Action {
    /// `--check` only: nothing changed. `latest` is the npm-reported version on
    /// the npm channel, `None` on the cargo channel (which tracks a branch).
    Checked { latest: Option<String> },
    /// An upgrade command ran to completion.
    Installed,
    /// The install source was unknown; the report carries manual instructions.
    Manual,
}

/// The outcome of an update: the detected source, the action taken, and lines
/// for the caller to render.
#[derive(Debug, Clone, PartialEq, Eq)]
pub struct SelfUpdateReport {
    pub source: InstallSource,
    pub action: Action,
    pub messages: Vec<String>,
}

/// A package-manager command to run.
#[derive(Debug, Clone, PartialEq, Eq)]
pub struct CommandRequest {
    /// The program, `npm` or `cargo`.
    pub program: String,
    /// Its arguments.
    pub args: Vec<String>,
    /// Capture stdout (`true`) or let the command inherit the terminal.
    pub capture: bool,
}

/// What running a [`CommandRequest`] came to.
#[derive(Debug, Clone, PartialEq, Eq)]
pub enum CommandOutcome {
    /// The command exited successfully; `stdout` is what it printed when
    /// captured, empty otherwise.
    Succeeded { stdout: String },
    /// The command could not be started; `reason` is the system's account.
    SpawnFailed { reason: String },
    /// The command exited unsuccessfully, with this exit status and stderr.
    Failed { status: String, stderr: String },
}

/// The next step of an update.
#[derive(Debug, Clone, PartialEq, Eq)]
pub enum UpdateStep {
    /// Nothing is left to run: here is the report.
    Done(SelfUpdateReport),
    /// Run this command, then finish with its outcome.
    Run(CommandRequest),
}

impl UpdateStep {
    /// The report, when the step is [`UpdateStep::Done`].
    pub fn finished(self) -> (r: Option<SelfUpdateReport>)
        ensures
            r == (match self {
                UpdateStep::Done(rep) => Some(rep),
                UpdateStep::Run(_) => None,
            }),
    {
        match self {
            UpdateStep::Done(rep) => Some(rep),
            UpdateStep::Run(_) => None,
        }
    }
}

/// An optional text as characters.
pub open spec fn opt_str(o: Option<&str>) -> Option<Seq<char>> {
    match o {
        Some(s) => Some(s@),
        None => None,
    }
}

/// The npm flags that force `registry`: none without an override; for a scoped
/// package (`@scope/name`) the scope-specific `--@scope:registry=<url>`, which
/// npm honours where a plain `--registry` is ignored; else `--registry <url>`.
pub open spec fn spec_registry_args(pkg: Seq<char>, registry: Option<Seq<char>>) -> Seq<Seq<char>> {
    match registry {
        None => Seq::empty(),
        Some(r) => if pkg.len() > 0 && pkg[0] == '@' && after_first(pkg, '/') is Some {
            seq!["--"@ + before_first(pkg, '/') + ":registry="@ + r]
        } else {
            seq!["--registry"@, r]
        },
    }
}

/// npm flags that force `registry` for a scoped or unscoped package.
pub fn registry_args(npm_package: &str, registry: Option<&str>) -> (out: Vec<String>)
    ensures
        texts(out@) == spec_registry_args(npm_package@, opt_str(registry)),
{
    match registry {
        None => {
            let out: Vec<String> = Vec::new();
            assert(texts(out@) =~= Seq::<Seq<char>>::empty());
            out
        },
        Some(r) => {
            let pkg = chars_of(npm_package);
            let rest = after_first_chars(&pkg, '/');
            let mut out: Vec<String> = Vec::new();
            if pkg.len() > 0 && pkg[0] == '@' && rest.is_some() {
                let scope = before_first_chars(&pkg, '/');
                let mut flag = String::from_str("--");
                push_chars(&mut flag, &scope);
                flag.append(":registry=");
                flag.append(r);
                out.push(flag);
                assert(texts(out@) =~= spec_registry_args(npm_package@, opt_str(registry)));
            } else {
                out.push(String::from_str("--registry"));
                out.push(String::from_str(r));
                assert(texts(out@) =~= spec_registry_args(npm_package@, opt_str(registry)));
            }
            out
        },
    }
}

/// Whether some `/`-separated component of `path` is exactly `name`.
pub open spec fn has_component(path: Seq<char>, name: Seq<char>) -> bool {
    exists|i: int| 0 <= i < split_on(path, '/').len() && #[trigger] split_on(path, '/')[i] == name
}

/// The install source a path shows: npm when a component is `node_modules`
/// (npm wins when both appear), cargo when a component is `.cargo`, else
/// unknown. Whole components are matched, never substrings.
pub open spec fn spec_detect_source(path: Seq<char>) -> InstallSource {
    if has_component(path, "node_modules"@) {
        InstallSource::Npm
    } else if has_component(path, ".cargo"@) {
        InstallSource::Cargo
    } else {
        InstallSource::Unknown
    }
}

/// Classify an install from the binary's path.
pub fn detect_source(exe_path: &str) -> (s: InstallSource)
    ensures
        s == spec_detect_source(exe_path@),
{
    let path = chars_of(exe_path);
    let parts = split_chars(&path, '/');
    let npm_name = chars_of("node_modules");
    let cargo_name = chars_of(".cargo");
    let ghost segs = split_on(exe_path@, '/');
    proof {
        reveal_strlit("node_modules");
        reveal_strlit(".cargo");
        assert("node_modules"@.len() != ".cargo"@.len());
    }
    let mut npm = false;
    let mut cargo = false;
    let mut i: usize = 0;
    while i < parts.len()
        invariant
            i <= parts@.len(),
            parts.deep_view() == segs,
            segs == split_on(exe_path@, '/'),
            npm_name@ == "node_modules"@,
            cargo_name@ == ".cargo"@,
            "node_modules"@ != ".cargo"@,
            npm <==> exists|k: int| 0 <= k < i && #[trigger] segs[k] == "node_modules"@,
            cargo <==> exists|k: int| 0 <= k < i && #[trigger] segs[k] == ".cargo"@,
        decreases parts@.len() - i,
    {
        assert(parts.deep_view()[i as int] == parts@[i as int]@);
        if same_chars(&parts[i], &npm_name) {
            npm = true;
        } else if same_chars(&parts[i], &cargo_name) {
            cargo = true;
        }
        i = i + 1;
    }
    if npm {
        InstallSource::Npm
    } else if cargo {
        InstallSource::Cargo
    } else {
        InstallSource::Unknown
    }
}

/// The manual instructions for an unknown install source.
pub open spec fn manual_lines(pkg: Seq<char>, git: Seq<char>, url: Seq<char>) -> Seq<Seq<char>> {
    seq![
        "could not determine how this binary was installed"@,
        "if installed via npm:   npm install -g "@ + pkg + "@latest"@,
        "if installed via cargo: cargo install --git "@ + git + " --force"@,
        "or download the latest release: "@ + url,
    ]
}

/// Unknown install source: never guess and clobber a binary we did not place;
/// say how to upgrade.
pub fn manual_report(cfg: &SelfUpdateConfig) -> (r: SelfUpdateReport)
    ensures
        r.source == InstallSource::Unknown,
        r.action == Action::Manual,
        texts(r.messages@) == manual_lines(cfg.npm_package@, cfg.cargo_git@, cfg.releases_url@),
{
    let mut messages: Vec<String> = Vec::new();
    messages.push(String::from_str("could not determine how this binary was installed"));
    let mut npm = String::from_str("if installed via npm:   npm install -g ");
    npm.append(cfg.npm_package);
    npm.append("@latest");
    messages.push(npm);
    let mut cargo = String::from_str("if installed via cargo: cargo install --git ");
    cargo.append(cfg.cargo_git);
    cargo.append(" --force");
    messages.push(cargo);
    let mut rel = String::from_str("or download the latest release: ");
    rel.append(cfg.releases_url);
    messages.push(rel);
    assert(texts(messages@) =~= manual_lines(cfg.npm_package@, cfg.cargo_git@, cfg.releases_url@));
    SelfUpdateReport { source: InstallSource::Unknown, action: Action::Manual, messages }
}

/// The arguments of the npm command: `view <pkg> version` when checking,
/// `install -g <pkg>@latest` otherwise, each followed by the registry flags.
pub open spec fn npm_args(pkg: Seq<char>, check: bool, registry: Option<Seq<char>>) -> Seq<Seq<char>> {
    if check {
        seq!["view"@, pkg, "version"@] + spec_registry_args(pkg, registry)
    } else {
        seq!["install"@, "-g"@, pkg + "@latest"@] + spec_registry_args(pkg, registry)
    }
}

/// The arguments of the cargo upgrade command.
pub open spec fn cargo_args(git: Seq<char>) -> Seq<Seq<char>> {
    seq!["install"@, "--git"@, git, "--force"@]
}

/// The registry override of the options, as characters.
pub open spec fn opts_registry(opts: &SelfUpdateOpts) -> Option<Seq<char>> {
    match opts.registry {
        Some(r) => Some(r@),
        None => None,
    }
}

/// The registry override, borrowed.
fn registry_of(opts: &SelfUpdateOpts) -> (r: Option<&str>)
    ensures
        opt_str(r) == opts_registry(opts),
{
    match &opts.registry {
        Some(r) => Some(r.as_str()),
        None => None,
    }
}

/// The npm channel: query the registry when checking (capturing the answer),
/// else install the latest release globally (on the terminal).
pub fn npm_update(cfg: &SelfUpdateConfig, opts: &SelfUpdateOpts) -> (step: UpdateStep)
    ensures
        step matches UpdateStep::Run(c) && c.program@ == "npm"@ && c.capture == opts.check
            && texts(c.args@) == npm_args(cfg.npm_package@, opts.check, opts_registry(opts)),
{
    let reg = registry_args(cfg.npm_package, registry_of(opts));
    let mut args: Vec<String> = Vec::new();
    if opts.check {
        args.push(String::from_str("view"));
        args.push(String::from_str(cfg.npm_package));
        args.push(String::from_str("version"));
    } else {
        args.push(String::from_str("install"));
        args.push(String::from_str("-g"));
        let mut spec = String::from_str(cfg.npm_package);
        spec.append("@latest");
        args.push(spec);
    }
    let ghost head = texts(args@);
    let mut i: usize = 0;
    while i < reg.len()
        invariant
            i <= reg@.len(),
            texts(args@) == head + texts(reg@).take(i as int),
        decreases reg@.len() - i,
    {
        let item = reg[i].clone();
        let ghost before = args@;
        args.push(item);
        assert(texts(args@) =~= texts(before).push(reg@[i as int]@));
        assert(texts(reg@).take(i + 1) =~= texts(reg@).take(i as int).push(reg@[i as int]@));
        i = i + 1;
        assert(texts(args@) =~= head + texts(reg@).take(i as int));
    }
    assert(texts(reg@).take(reg@.len() as int) =~= texts(reg@));
    assert(texts(args@) =~= npm_args(cfg.npm_package@, opts.check, opts_registry(opts)));
    UpdateStep::Run(CommandRequest { program: String::from_str("npm"), args, capture: opts.check })
}

/// The lines of a cargo `--check`.
pub open spec fn cargo_check_lines(git: Seq<char>) -> Seq<Seq<char>> {
    seq![
        "installed via cargo"@,
        "cargo installs track the git default branch ("@ + git
            + "); there is no single published version to compare against"@,
        "run `quire update` to rebuild from the latest source"@,
    ]
}

/// The cargo channel: a check reports at once that cargo tracks a branch and
/// has no single latest version; otherwise rebuild from the latest source.
pub fn cargo_update(cfg: &SelfUpdateConfig, opts: &SelfUpdateOpts) -> (step: UpdateStep)
    ensures
        opts.check ==> (step matches UpdateStep::Done(r) && r.source == InstallSource::Cargo
            && r.action == (Action::Checked { latest: None })
            && texts(r.messages@) == cargo_check_lines(cfg.cargo_git@)),
        !opts.check ==> (step matches UpdateStep::Run(c) && c.program@ == "cargo"@ && !c.capture
            && texts(c.args@) == cargo_args(cfg.cargo_git@)),
{
    if opts.check {
        let mut messages: Vec<String> = Vec::new();
        messages.push(String::from_str("installed via cargo"));
        let mut track = String::from_str("cargo installs track the git default branch (");
        track.append(cfg.cargo_git);
        track.append("); there is no single published version to compare against");
        messages.push(track);
        messages.push(String::from_str("run `quire update` to rebuild from the latest source"));
        assert(texts(messages@) =~= cargo_check_lines(cfg.cargo_git@));
        UpdateStep::Done(
            SelfUpdateReport {
                source: InstallSource::Cargo,
                action: Action::Checked { latest: None },
                messages,
            },
        )
    } else {
        let mut args: Vec<String> = Vec::new();
        args.push(String::from_str("install"));
        args.push(String::from_str("--git"));
        args.push(String::from_str(cfg.cargo_git));
        args.push(String::from_str("--force"));
        assert(texts(args@) =~= cargo_args(cfg.cargo_git@));
        UpdateStep::Run(CommandRequest { program: String::from_str("cargo"), args, capture: false })
    }
}

/// The first step for a detected source: npm and cargo go to their channels;
/// an unknown source gets the manual instructions and nothing is run.
pub fn run_for_source(cfg: &SelfUpdateConfig, opts: &SelfUpdateOpts, source: InstallSource) -> (step:
    UpdateStep)
    ensures
        source == InstallSource::Unknown ==> (step matches UpdateStep::Done(r) && r.source
            == InstallSource::Unknown && r.action == Action::Manual && texts(r.messages@)
            == manual_lines(cfg.npm_package@, cfg.cargo_git@, cfg.releases_url@)),
        source == InstallSource::Npm ==> (step matches UpdateStep::Run(c) && c.program@ == "npm"@
            && c.capture == opts.check && texts(c.args@) == npm_args(
            cfg.npm_package@,
            opts.check,
            opts_registry(opts),
        )),
        source == InstallSource::Cargo && opts.check ==> (step matches UpdateStep::Done(r)
            && r.source == InstallSource::Cargo && r.action == (Action::Checked { latest: None })
            && texts(r.messages@) == cargo_check_lines(cfg.cargo_git@)),
        source == InstallSource::Cargo && !opts.check ==> (step matches UpdateStep::Run(c)
            && c.program@ == "cargo"@ && !c.capture && texts(c.args@) == cargo_args(cfg.cargo_git@)),
        opts.check ==> !(step matches UpdateStep::Run(c) && c.args@.len() > 0 && c.args@[0]@
            == "install"@),
        opts.check ==> (step matches UpdateStep::Done(r) ==> r.action != Action::Installed),
{
    proof {
        law_a_check_only_queries(cfg.npm_package@, opts_registry(opts));
    }
    match source {
        InstallSource::Npm => npm_update(cfg, opts),
        InstallSource::Cargo => cargo_update(cfg, opts),
        InstallSource::Unknown => UpdateStep::Done(manual_report(cfg)),
    }
}

/// How a failed command reads: `spawning `<cmd>` (is it installed and on
/// PATH?): <reason>` when it could not start; `` `<cmd>` failed: <stderr>``
/// (trimmed) when a captured command failed; `` `<cmd>` exited with <status>``
/// when a command on the terminal failed.
pub open spec fn command_failure(cmd: Seq<char>, capture: bool, outcome: CommandOutcome) -> Seq<char> {
    match outcome {
        CommandOutcome::SpawnFailed { reason } => "spawning `"@ + cmd
            + "` (is it installed and on PATH?): "@ + reason@,
        CommandOutcome::Failed { status, stderr } => if capture {
            "`"@ + cmd + "` failed: "@ + trim(stderr@)
        } else {
            "`"@ + cmd + "` exited with "@ + status@
        },
        CommandOutcome::Succeeded { .. } => Seq::empty(),
    }
}

/// The failure text of an unsuccessful outcome.
fn failure_text(cmd: &str, capture: bool, outcome: &CommandOutcome) -> (s: String)
    ensures
        s@ == command_failure(cmd@, capture, *outcome),
{
    match outcome {
        CommandOutcome::SpawnFailed { reason } => {
            let mut s = String::from_str("spawning `");
            s.append(cmd);
            s.append("` (is it installed and on PATH?): ");
            s.append(reason.as_str());
            s
        },
        CommandOutcome::Failed { status, stderr } => {
            let mut s = String::from_str("`");
            s.append(cmd);
            if capture {
                s.append("` failed: ");
                let e = chars_of(stderr.as_str());
                let t = trim_chars(&e);
                push_chars(&mut s, &t);
            } else {
                s.append("` exited with ");
                s.append(status.as_str());
            }
            s
        },
        CommandOutcome::Succeeded { .. } => String::new(),
    }
}

/// The lines of an npm `--check`.
pub open spec fn npm_check_lines(pkg: Seq<char>, latest: Seq<char>) -> Seq<Seq<char>> {
    seq![
        "installed via npm ("@ + pkg + ")"@,
        "latest published version: "@ + latest,
        "run `quire update` to upgrade"@,
    ]
}

/// The context an npm failure is reported under.
pub open spec fn npm_context(check: bool) -> Seq<char> {
    if check {
        "querying the npm registry for the latest version"@
    } else {
        "running npm install -g to upgrade"@
    }
}

/// Finish the npm channel with the outcome of its command: a check reports the
/// trimmed version npm printed; an install reports the upgrade; a failure is
/// an error under the channel's context.
pub fn finish_npm_update(cfg: &SelfUpdateConfig, opts: &SelfUpdateOpts, outcome: CommandOutcome) -> (r:
    Result<SelfUpdateReport, String>)
    ensures
        outcome matches CommandOutcome::Succeeded { stdout } ==> (r matches Ok(rep) && rep.source
            == InstallSource::Npm && (opts.check ==> (rep.action matches Action::Checked {
            latest: Some(l) } && l@ == trim(stdout@) && texts(rep.messages@) == npm_check_lines(
            cfg.npm_package@,
            trim(stdout@),
        ))) && (!opts.check ==> (rep.action == Action::Installed && texts(rep.messages@)
            == seq!["upgraded "@ + cfg.npm_package@ + " via npm"@]))),
        !(outcome is Succeeded) ==> (r matches Err(e) && e@ == npm_context(opts.check) + ": "@
            + command_failure("npm"@, opts.check, outcome)),
        opts.check ==> (r matches Ok(rep) ==> rep.action != Action::Installed),
{
    match outcome {
        CommandOutcome::Succeeded { stdout } => {
            let mut messages: Vec<String> = Vec::new();
            if opts.check {
                let out = chars_of(stdout.as_str());
                let t = trim_chars(&out);
                let latest = string_of(&t);
                let mut first = String::from_str("installed via npm (");
                first.append(cfg.npm_package);
                first.append(")");
                messages.push(first);
                let mut second = String::from_str("latest published version: ");
                second.append(latest.as_str());
                messages.push(second);
                messages.push(String::from_str("run `quire update` to upgrade"));
                assert(texts(messages@) =~= npm_check_lines(cfg.npm_package@, trim(stdout@)));
                Ok(
                    SelfUpdateReport {
                        source: InstallSource::Npm,
                        action: Action::Checked { latest: Some(latest) },
                        messages,
                    },
                )
            } else {
                let mut done = String::from_str("upgraded ");
                done.append(cfg.npm_package);
                done.append(" via npm");
                messages.push(done);
                assert(texts(messages@) =~= seq!["upgraded "@ + cfg.npm_package@ + " via npm"@]);
                Ok(
                    SelfUpdateReport {
                        source: InstallSource::Npm,
                        action: Action::Installed,
                        messages,
                    },
                )
            }
        },
        _ => {
            let mut e = if opts.check {
                String::from_str("querying the npm registry for the latest version")
            } else {
                String::from_str("running npm install -g to upgrade")
            };
            e.append(": ");
            let f = failure_text("npm", opts.check, &outcome);
            e.append(f.as_str());
            Err(e)
        },
    }
}

/// Finish the cargo channel with the outcome of its install.
pub fn finish_cargo_update(cfg: &SelfUpdateConfig, outcome: CommandOutcome) -> (r: Result<
    SelfUpdateReport,
    String,
>)
    ensures
        outcome is Succeeded ==> (r matches Ok(rep) && rep.source == InstallSource::Cargo
            && rep.action == Action::Installed && texts(rep.messages@) == seq![
            "upgraded from "@ + cfg.cargo_git@ + " via cargo"@,
        ]),
        !(outcome is Succeeded) ==> (r matches Err(e) && e@
            == "running cargo install --git to upgrade: "@ + command_failure(
            "cargo"@,
            false,
            outcome,
        )),
{
    match outcome {
        CommandOutcome::Succeeded { .. } => {
            let mut messages: Vec<String> = Vec::new();
            let mut done = String::from_str("upgraded from ");
            done.append(cfg.cargo_git);
            done.append(" via cargo");
            messages.push(done);
            assert(texts(messages@) =~= seq!["upgraded from "@ + cfg.cargo_git@ + " via cargo"@]);
            Ok(
                SelfUpdateReport { source: InstallSource::Cargo, action: Action::Installed, messages },
            )
        },
        _ => {
            let mut e = String::from_str("running cargo install --git to upgrade: ");
            let f = failure_text("cargo", false, &outcome);
            e.append(f.as_str());
            Err(e)
        },
    }
}

/// `--check` never installs: the npm command it runs is `view <pkg>
/// version` and never `install`, and the cargo channel runs no command at
/// all ([`run_for_source`]); what a check reports is `Checked`, never
/// `Installed` ([`finish_npm_update`]).
pub proof fn law_a_check_only_queries(pkg: Seq<char>, registry: Option<Seq<char>>)
    ensures
        npm_args(pkg, true, registry)[0] == "view"@,
        npm_args(pkg, true, registry)[0] != "install"@,
        npm_args(pkg, true, registry)[1] == pkg,
        npm_args(pkg, false, registry)[0] == "install"@,
{
    reveal_strlit("view");
    reveal_strlit("install");
    assert("view"@.len() != "install"@.len());
}

} // verus!

//! Execution profiles and command resolution.
//!
//! A run request selects one of three sandbox profiles: native (the command
//! goes to the host shell unchanged), docker (the command is wrapped in a
//! `docker run` line), or ssh (the command is forwarded to a remote host).
//! Resolution is pure string construction and cannot fail.

use vstd::prelude::*;

verus! {

/// Execution profile determines the sandbox environment.
/// - `Native`: run directly in the host shell (default)
/// - `Docker`: wrap in `docker run --rm` with optional CPU/memory limits
/// - `Ssh`: forward to a remote host via SSH
#[derive(Debug, Clone, Copy, PartialEq, Eq, Structural)]
pub enum ExecutionProfile {
    Native,
    Docker,
    Ssh,
}

impl Default for ExecutionProfile {
    fn default() -> (r: Self)
        ensures
            r == ExecutionProfile::Native,
    {
        ExecutionProfile::Native
    }
}

/// Configuration for the docker execution profile.
#[derive(Debug, Clone)]
pub struct DockerConfig {
    pub image: Option<String>,
    pub cpu_limit: Option<String>,
    pub mem_limit: Option<String>,
}

impl Default for DockerConfig {
    fn default() -> (r: Self)
        ensures
            r.image is None,
            r.cpu_limit is None,
            r.mem_limit is None,
    {
        DockerConfig { image: None, cpu_limit: None, mem_limit: None }
    }
}

/// Configuration for the ssh execution profile.
#[derive(Debug, Clone)]
pub struct SshConfig {
    pub host: Option<String>,
    pub user: Option<String>,
}

impl Default for SshConfig {
    fn default() -> (r: Self)
        ensures
            r.host is None,
            r.user is None,
    {
        SshConfig { host: None, user: None }
    }
}

// ---------------------------------------------------------------------------
// Shell escaping
// ---------------------------------------------------------------------------

/// The four-character sequence that stands for one literal single quote
/// inside a single-quoted shell argument: close the quote, emit an escaped
/// quote, reopen the quote.
pub open spec fn quote_escape_seq() -> Seq<char> {
    seq!['\'', '\\', '\'', '\'']
}

/// How one character of a command is rewritten for embedding in a
/// single-quoted shell argument.
pub open spec fn escape_char(c: char) -> Seq<char> {
    if c == '\'' {
        quote_escape_seq()
    } else {
        seq![c]
    }
}

/// The body of the escaped form: each character rewritten in order.
pub open spec fn escape_body(s: Seq<char>) -> Seq<char>
    decreases s.len(),
{
    if s.len() == 0 {
        Seq::empty()
    } else {
        escape_char(s[0]) + escape_body(s.drop_first())
    }
}

/// The escaped form of a command: the rewritten body wrapped in single quotes.
pub open spec fn escaped(s: Seq<char>) -> Seq<char> {
    seq!['\''] + escape_body(s) + seq!['\'']
}

/// Undoes the body rewriting: each occurrence of the escape sequence becomes
/// one single quote again, every other character is kept.
pub open spec fn unescape_body(s: Seq<char>) -> Seq<char>
    decreases s.len(),
{
    if s.len() == 0 {
        Seq::empty()
    } else if s.len() >= 4 && s.subrange(0, 4) == quote_escape_seq() {
        seq!['\''] + unescape_body(s.skip(4))
    } else {
        seq![s[0]] + unescape_body(s.drop_first())
    }
}

/// Undoes the whole escaping: strips the outer quotes and rewrites the body
/// back. This is what a shell conceptually does with the quoted argument.
pub open spec fn unescaped(s: Seq<char>) -> Seq<char>
    recommends
        s.len() >= 2,
{
    unescape_body(s.subrange(1, s.len() - 1))
}

/// Scanning `body` from the left, every single quote begins a complete
/// occurrence of the escape sequence: no quote is left bare.
pub open spec fn quotes_are_escaped(body: Seq<char>) -> bool
    decreases body.len(),
{
    if body.len() == 0 {
        true
    } else if body[0] == '\'' {
        &&& body.len() >= 4
        &&& body.subrange(0, 4) == quote_escape_seq()
        &&& quotes_are_escaped(body.skip(4))
    } else {
        quotes_are_escaped(body.drop_first())
    }
}

proof fn lemma_unescape_escape_body(s: Seq<char>)
    ensures
        unescape_body(escape_body(s)) == s,
    decreases s.len(),
{
    if s.len() == 0 {
        assert(escape_body(s) =~= Seq::<char>::empty());
        assert(unescape_body(escape_body(s)) =~= s);
    } else {
        let rest = s.drop_first();
        lemma_unescape_escape_body(rest);
        let e = escape_body(s);
        if s[0] == '\'' {
            assert(e.subrange(0, 4) =~= quote_escape_seq());
            assert(e.skip(4) =~= escape_body(rest));
            assert(seq!['\''] + rest =~= s);
        } else {
            if e.len() >= 4 && e.subrange(0, 4) == quote_escape_seq() {
                assert(e.subrange(0, 4)[0] == e[0]);
                assert(false);
            }
            assert(e.drop_first() =~= escape_body(rest));
            assert(seq![s[0]] + rest =~= s);
        }
        assert(unescape_body(escape_body(s)) =~= s);
    }
}

proof fn lemma_escape_body_quotes_escaped(s: Seq<char>)
    ensures
        quotes_are_escaped(escape_body(s)),
    decreases s.len(),
{
    if s.len() == 0 {
    } else {
        let rest = s.drop_first();
        lemma_escape_body_quotes_escaped(rest);
        let body = escape_body(s);
        if s[0] == '\'' {
            assert(body.subrange(0, 4) =~= quote_escape_seq());
            assert(body.skip(4) =~= escape_body(rest));
        } else {
            assert(body[0] == s[0]);
            assert(body.drop_first() =~= escape_body(rest));
        }
    }
}

/// Escaping a command for single-quoted embedding is reversible: undoing the
/// escaping reproduces the original text, for any command, quotes included.
/// The escaped form always starts and ends with a single quote, and between
/// those outer quotes no single quote stands outside an escape sequence.
pub proof fn lemma_escape_roundtrip(s: Seq<char>)
    ensures
        unescaped(escaped(s)) == s,
        escaped(s).len() >= 2,
        escaped(s)[0] == '\'',
        escaped(s)[escaped(s).len() - 1] == '\'',
        quotes_are_escaped(escaped(s).subrange(1, escaped(s).len() - 1)),
{
    let e = escaped(s);
    assert(e.subrange(1, e.len() - 1) =~= escape_body(s));
    lemma_unescape_escape_body(s);
    lemma_escape_body_quotes_escaped(s);
}

proof fn lemma_escape_body_push(s: Seq<char>, c: char)
    ensures
        escape_body(s.push(c)) == escape_body(s) + escape_char(c),
    decreases s.len(),
{
    if s.len() == 0 {
        assert(s.push(c)[0] == c);
        assert(s.push(c).drop_first() =~= Seq::<char>::empty());
        assert(escape_body(s.push(c)) == escape_char(c) + escape_body(Seq::<char>::empty()));
        assert(escape_char(c) + Seq::<char>::empty() =~= escape_char(c));
        assert(escape_body(s) + escape_char(c) =~= escape_char(c));
        assert(escape_body(s.push(c)) =~= escape_body(s) + escape_char(c));
    } else {
        assert(s.push(c)[0] == s[0]);
        assert(s.push(c).drop_first() =~= s.drop_first().push(c));
        lemma_escape_body_push(s.drop_first(), c);
        assert(escape_body(s.push(c)) == escape_char(s[0]) + (escape_body(s.drop_first())
            + escape_char(c)));
        assert(escape_char(s[0]) + (escape_body(s.drop_first()) + escape_char(c)) =~= (escape_char(
            s[0],
        ) + escape_body(s.drop_first())) + escape_char(c));
        assert(escape_body(s.push(c)) =~= escape_body(s) + escape_char(c));
    }
}

/// Relies on `String::push`: appends exactly one character at the end.
#[verifier::external_body]
pub(crate) fn push_char(s: &mut String, c: char)
    ensures
        final(s)@ == old(s)@.push(c),
{
    s.push(c);
}

/// Shell-escape a command string for embedding in a shell -c argument.
pub fn shell_escape(cmd: &str) -> (r: String)
    ensures
        r@ == escaped(cmd@),
{
    let mut out = String::new();
    push_char(&mut out, '\'');
    let n = cmd.unicode_len();
    let mut i: usize = 0;
    while i < n
        invariant
            n == cmd@.len(),
            i <= n,
            out@ == seq!['\''] + escape_body(cmd@.take(i as int)),
        decreases n - i,
    {
        let c = cmd.get_char(i);
        proof {
            assert(cmd@.take(i as int).push(c) =~= cmd@.take(i + 1 as int));
            lemma_escape_body_push(cmd@.take(i as int), c);
        }
        if c == '\'' {
            push_char(&mut out, '\'');
            push_char(&mut out, '\\');
            push_char(&mut out, '\'');
            push_char(&mut out, '\'');
        } else {
            push_char(&mut out, c);
        }
        proof {
            assert(out@ =~= seq!['\''] + escape_body(cmd@.take(i + 1 as int)));
        }
        i = i + 1;
    }
    proof {
        assert(cmd@.take(n as int) =~= cmd@);
    }
    push_char(&mut out, '\'');
    proof {
        assert(out@ =~= escaped(cmd@));
    }
    out
}

// ---------------------------------------------------------------------------
// Profile resolution
// ---------------------------------------------------------------------------

/// The string itself when one is given, the fallback otherwise.
pub open spec fn str_or(o: Option<String>, fallback: Seq<char>) -> Seq<char> {
    match o {
        Some(s) => s@,
        None => fallback,
    }
}

/// The `--cpus=` flag for a configured CPU limit; empty when none is set.
pub open spec fn cpu_flag(limit: Option<String>) -> Seq<char> {
    match limit {
        Some(c) => "--cpus="@ + c@,
        None => Seq::empty(),
    }
}

/// The `--memory=` flag for a configured memory limit; empty when none is set.
pub open spec fn mem_flag(limit: Option<String>) -> Seq<char> {
    match limit {
        Some(m) => "--memory="@ + m@,
        None => Seq::empty(),
    }
}

/// The full shell line for the docker profile: `docker run --rm` with the
/// optional limit flags, a bind mount of the working directory (`.` when
/// unset) onto /workspace, the image (`ubuntu:22.04` when unset), and the
/// escaped command handed to the in-container shell.
pub open spec fn docker_line(command: Seq<char>, cwd: Option<String>, cfg: DockerConfig) -> Seq<
    char,
> {
    "docker run --rm "@ + cpu_flag(cfg.cpu_limit) + " "@ + mem_flag(cfg.mem_limit) + " -v "@
        + str_or(cwd, "."@) + ":/workspace -w /workspace "@ + str_or(cfg.image, "ubuntu:22.04"@)
        + " sh -c "@ + escaped(command)
}

/// The full shell line for the ssh profile: host-key checking disabled,
/// `user@host` (`root` and `localhost` when unset), the escaped command.
pub open spec fn ssh_line(command: Seq<char>, cfg: SshConfig) -> Seq<char> {
    "ssh -o StrictHostKeyChecking=no "@ + str_or(cfg.user, "root"@) + "@"@ + str_or(
        cfg.host,
        "localhost"@,
    ) + " "@ + escaped(command)
}

fn append_opt_or<'a>(out: &mut String, o: &'a Option<String>, fallback: &'a str)
    ensures
        final(out)@ == old(out)@ + str_or(*o, fallback@),
{
    match o {
        Some(s) => out.append(s.as_str()),
        None => out.append(fallback),
    }
}

/// Wraps a shell command for the docker sandbox profile.
pub fn wrap_for_docker(command: &str, cwd: &Option<String>, cfg: &DockerConfig) -> (r: String)
    ensures
        r@ == docker_line(command@, *cwd, *cfg),
{
    let mut out = String::new();
    out.append("docker run --rm ");
    match &cfg.cpu_limit {
        Some(c) => {
            out.append("--cpus=");
            out.append(c.as_str());
        },
        None => {},
    }
    out.append(" ");
    match &cfg.mem_limit {
        Some(m) => {
            out.append("--memory=");
            out.append(m.as_str());
        },
        None => {},
    }
    out.append(" -v ");
    append_opt_or(&mut out, cwd, ".");
    out.append(":/workspace -w /workspace ");
    append_opt_or(&mut out, &cfg.image, "ubuntu:22.04");
    out.append(" sh -c ");
    let esc = shell_escape(command);
    out.append(esc.as_str());
    proof {
        assert(out@ =~= docker_line(command@, *cwd, *cfg));
    }
    out
}

/// Wraps a shell command for ssh remote execution.
pub fn wrap_for_ssh(command: &str, cfg: &SshConfig) -> (r: String)
    ensures
        r@ == ssh_line(command@, *cfg),
{
    let mut out = String::new();
    out.append("ssh -o StrictHostKeyChecking=no ");
    append_opt_or(&mut out, &cfg.user, "root");
    out.append("@");
    append_opt_or(&mut out, &cfg.host, "localhost");
    out.append(" ");
    let esc = shell_escape(command);
    out.append(esc.as_str());
    proof {
        assert(out@ =~= ssh_line(command@, *cfg));
    }
    out
}

/// The docker configuration to use: the given one, or all-unset defaults.
pub open spec fn docker_cfg_or_default(o: Option<DockerConfig>) -> DockerConfig {
    match o {
        Some(c) => c,
        None => DockerConfig { image: None, cpu_limit: None, mem_limit: None },
    }
}

/// The ssh configuration to use: the given one, or all-unset defaults.
pub open spec fn ssh_cfg_or_default(o: Option<SshConfig>) -> SshConfig {
    match o {
        Some(c) => c,
        None => SshConfig { host: None, user: None },
    }
}

/// The profile to use: the given one, or native.
pub open spec fn profile_or_default(o: Option<ExecutionProfile>) -> ExecutionProfile {
    match o {
        Some(p) => p,
        None => ExecutionProfile::Native,
    }
}

/// The final shell line that the host shell runs for a request: the command
/// unchanged for the native profile, the wrapped line otherwise.
pub open spec fn resolved_command(
    profile: ExecutionProfile,
    command: Seq<char>,
    cwd: Option<String>,
    docker_cfg: DockerConfig,
    ssh_cfg: SshConfig,
) -> Seq<char> {
    match profile {
        ExecutionProfile::Native => command,
        ExecutionProfile::Docker => docker_line(command, cwd, docker_cfg),
        ExecutionProfile::Ssh => ssh_line(command, ssh_cfg),
    }
}

/// Rewrites the user's command into the final shell line for the selected
/// profile, with unset profile and unset configurations falling back to
/// their defaults.
pub fn resolve_command(
    command: &str,
    cwd: &Option<String>,
    profile: Option<ExecutionProfile>,
    docker_config: Option<DockerConfig>,
    ssh_config: Option<SshConfig>,
) -> (r: String)
    ensures
        r@ == resolved_command(
            profile_or_default(profile),
            command@,
            *cwd,
            docker_cfg_or_default(docker_config),
            ssh_cfg_or_default(ssh_config),
        ),
{
    let p = match profile {
        Some(p) => p,
        None => ExecutionProfile::default(),
    };
    match p {
        ExecutionProfile::Docker => {
            let cfg = match docker_config {
                Some(c) => c,
                None => DockerConfig::default(),
            };
            wrap_for_docker(command, cwd, &cfg)
        },
        ExecutionProfile::Ssh => {
            let cfg = match ssh_config {
                Some(c) => c,
                None => SshConfig::default(),
            };
            wrap_for_ssh(command, &cfg)
        },
        ExecutionProfile::Native => String::from_str(command),
    }
}

// ---------------------------------------------------------------------------
// Shell resolution
// ---------------------------------------------------------------------------

/// The shell binary for the host platform: a PowerShell-style shell on
/// windows; elsewhere the environment-provided shell path, falling back to
/// the POSIX default when none is provided.
pub open spec fn shell_binary(windows: bool, env_shell: Option<String>) -> Seq<char> {
    if windows {
        "powershell.exe"@
    } else {
        str_or(env_shell, "/bin/bash"@)
    }
}

/// The invocation flag that goes with the host shell.
pub open spec fn shell_flag(windows: bool) -> Seq<char> {
    if windows {
        "-Command"@
    } else {
        "-c"@
    }
}

/// Determine the host shell to use: the shell binary and its invocation
/// flag. Neither is ever empty.
pub fn detect_shell(windows: bool, env_shell: Option<String>) -> (r: (String, String))
    requires
        env_shell matches Some(s) ==> s@.len() > 0,
    ensures
        r.0@ == shell_binary(windows, env_shell),
        r.1@ == shell_flag(windows),
        r.0@.len() > 0,
        r.1@.len() > 0,
{
    proof {
        reveal_strlit("powershell.exe");
        reveal_strlit("-Command");
        reveal_strlit("/bin/bash");
        reveal_strlit("-c");
    }
    if windows {
        (String::from_str("powershell.exe"), String::from_str("-Command"))
    } else {
        let bin = match env_shell {
            Some(s) => s,
            None => String::from_str("/bin/bash"),
        };
        (bin, String::from_str("-c"))
    }
}

} // verus!

//! The sandbox hook and build commands run in: its configuration, the
//! builder of a sandboxed command, and the paths and rules a run grants.
//! Enforcing the rules (Landlock) is the caller's.

use vstd::prelude::*;

use crate::text::{chars_of, string_of, texts};

verus! {

/// Network access configuration.
#[derive(Debug)]
pub struct NetworkConfig {
    /// Allow all outbound network connections.
    pub allow_all: bool,
    /// TCP ports that may be bound.
    pub allow_bind_tcp: Vec<u16>,
    /// TCP ports that may be connected to.
    pub allow_connect_tcp: Vec<u16>,
}

impl Default for NetworkConfig {
    fn default() -> (n: NetworkConfig)
        ensures
            !n.allow_all,
            n.allow_bind_tcp@ == Seq::<u16>::empty(),
            n.allow_connect_tcp@ == Seq::<u16>::empty(),
    {
        NetworkConfig { allow_all: false, allow_bind_tcp: Vec::new(), allow_connect_tcp: Vec::new() }
    }
}

impl NetworkConfig {
    /// Allow all network access.
    pub fn allow_all() -> (n: NetworkConfig)
        ensures
            n.allow_all,
            n.allow_bind_tcp@ == Seq::<u16>::empty(),
            n.allow_connect_tcp@ == Seq::<u16>::empty(),
    {
        NetworkConfig { allow_all: true, allow_bind_tcp: Vec::new(), allow_connect_tcp: Vec::new() }
    }

    /// Allow connecting to the HTTP and HTTPS ports.
    pub fn allow_https() -> (n: NetworkConfig)
        ensures
            !n.allow_all,
            n.allow_bind_tcp@ == Seq::<u16>::empty(),
            n.allow_connect_tcp@ == seq![80u16, 443u16],
    {
        let mut ports: Vec<u16> = Vec::new();
        ports.push(80);
        ports.push(443);
        assert(ports@ =~= seq![80u16, 443u16]);
        NetworkConfig { allow_all: false, allow_bind_tcp: Vec::new(), allow_connect_tcp: ports }
    }
}

/// Sandbox configuration for hook and build execution.
#[derive(Debug)]
pub struct SandboxConfig {
    /// Whether sandboxing is on; off, commands run without restrictions.
    pub enabled: bool,
    /// Paths that can be read, besides the defaults.
    pub fs_read: Vec<String>,
    /// Paths that can be written, besides the defaults.
    pub fs_write: Vec<String>,
    /// Network access (enforced from Landlock V4 on).
    pub network: NetworkConfig,
    /// Whether the default read paths (system libraries, certificates and
    /// the like) are readable.
    pub include_default_read_paths: bool,
    /// Whether the user's cache, config and data directories are writable.
    pub include_user_dirs: bool,
}

/// The network settings, as plain values.
pub open spec fn network_view(n: NetworkConfig) -> (bool, Seq<u16>, Seq<u16>) {
    (n.allow_all, n.allow_bind_tcp@, n.allow_connect_tcp@)
}

impl SandboxConfig {
    /// A sandbox with the default read paths and no network.
    pub fn new() -> (c: SandboxConfig)
        ensures
            c.enabled,
            c.include_default_read_paths,
            !c.include_user_dirs,
            c.fs_read@.len() == 0,
            c.fs_write@.len() == 0,
            network_view(c.network) == (false, Seq::<u16>::empty(), Seq::<u16>::empty()),
    {
        SandboxConfig {
            enabled: true,
            fs_read: Vec::new(),
            fs_write: Vec::new(),
            network: NetworkConfig::default(),
            include_default_read_paths: true,
            include_user_dirs: false,
        }
    }

    /// No sandbox at all.
    pub fn disabled() -> (c: SandboxConfig)
        ensures
            !c.enabled,
            !c.include_default_read_paths,
            !c.include_user_dirs,
            c.fs_read@.len() == 0,
            c.fs_write@.len() == 0,
            network_view(c.network) == (false, Seq::<u16>::empty(), Seq::<u16>::empty()),
    {
        SandboxConfig {
            enabled: false,
            fs_read: Vec::new(),
            fs_write: Vec::new(),
            network: NetworkConfig::default(),
            include_default_read_paths: false,
            include_user_dirs: false,
        }
    }

    /// Add a readable path.
    pub fn add_read_path(self, path: String) -> (c: SandboxConfig)
        ensures
            c.fs_read@ == self.fs_read@.push(path),
            c.fs_write == self.fs_write,
            c.enabled == self.enabled,
            c.network == self.network,
            c.include_default_read_paths == self.include_default_read_paths,
            c.include_user_dirs == self.include_user_dirs,
    {
        let mut c = self;
        c.fs_read.push(path);
        c
    }

    /// Add a writable path.
    pub fn add_write_path(self, path: String) -> (c: SandboxConfig)
        ensures
            c.fs_write@ == self.fs_write@.push(path),
            c.fs_read == self.fs_read,
            c.enabled == self.enabled,
            c.network == self.network,
            c.include_default_read_paths == self.include_default_read_paths,
            c.include_user_dirs == self.include_user_dirs,
    {
        let mut c = self;
        c.fs_write.push(path);
        c
    }

    /// Set the network configuration.
    pub fn with_network(self, network: NetworkConfig) -> (c: SandboxConfig)
        ensures
            c.network == network,
            c.fs_read == self.fs_read,
            c.fs_write == self.fs_write,
            c.enabled == self.enabled,
            c.include_default_read_paths == self.include_default_read_paths,
            c.include_user_dirs == self.include_user_dirs,
    {
        let mut c = self;
        c.network = network;
        c
    }

    /// Make the user's cache, config and data directories writable.
    pub fn with_user_dirs(self) -> (c: SandboxConfig)
        ensures
            c.include_user_dirs,
            c.network == self.network,
            c.fs_read == self.fs_read,
            c.fs_write == self.fs_write,
            c.enabled == self.enabled,
            c.include_default_read_paths == self.include_default_read_paths,
    {
        let mut c = self;
        c.include_user_dirs = true;
        c
    }
}

/// A shell command to run in the sandbox, with what it may touch.
#[derive(Debug)]
pub struct SandboxedCommand<'a> {
    /// The command, run by `sh -c`.
    pub command: &'a str,
    /// Where it runs; always writable.
    pub working_dir: String,
    /// Its environment, in order.
    pub env_vars: Vec<(String, String)>,
    /// The sandbox it runs in.
    pub config: SandboxConfig,
    /// Paths it may also read.
    pub extra_read_paths: Vec<String>,
    /// Paths it may also write (and read).
    pub extra_write_paths: Vec<String>,
}

impl<'a> SandboxedCommand<'a> {
    /// A command running in `current_dir` (the process's working directory,
    /// or `/` where that is unknown) in the default sandbox.
    pub fn new(command: &'a str, current_dir: String) -> (c: SandboxedCommand<'a>)
        ensures
            c.command == command,
            c.working_dir == current_dir,
            c.env_vars@.len() == 0,
            c.extra_read_paths@.len() == 0,
            c.extra_write_paths@.len() == 0,
            c.config.enabled,
            c.config.include_default_read_paths,
            !c.config.include_user_dirs,
            c.config.fs_read@.len() == 0,
            c.config.fs_write@.len() == 0,
            network_view(c.config.network) == (false, Seq::<u16>::empty(), Seq::<u16>::empty()),
    {
        SandboxedCommand {
            command,
            working_dir: current_dir,
            env_vars: Vec::new(),
            config: SandboxConfig::new(),
            extra_read_paths: Vec::new(),
            extra_write_paths: Vec::new(),
        }
    }

    /// Set the working directory.
    pub fn working_dir(self, dir: String) -> (c: SandboxedCommand<'a>)
        ensures
            c.working_dir == dir,
            c.command == self.command,
            c.env_vars == self.env_vars,
            c.config == self.config,
            c.extra_read_paths == self.extra_read_paths,
            c.extra_write_paths == self.extra_write_paths,
    {
        let mut c = self;
        c.working_dir = dir;
        c
    }

    /// Add an environment variable.
    pub fn env(self, key: String, value: String) -> (c: SandboxedCommand<'a>)
        ensures
            c.env_vars@ == self.env_vars@.push((key, value)),
            c.command == self.command,
            c.working_dir == self.working_dir,
            c.config == self.config,
            c.extra_read_paths == self.extra_read_paths,
            c.extra_write_paths == self.extra_write_paths,
    {
        let mut c = self;
        c.env_vars.push((key, value));
        c
    }

    /// Add environment variables, in order.
    pub fn envs(self, vars: Vec<(String, String)>) -> (c: SandboxedCommand<'a>)
        ensures
            c.env_vars@ == self.env_vars@ + vars@,
            c.command == self.command,
            c.working_dir == self.working_dir,
            c.config == self.config,
            c.extra_read_paths == self.extra_read_paths,
            c.extra_write_paths == self.extra_write_paths,
    {
        let mut c = self;
        let mut vars = vars;
        c.env_vars.append(&mut vars);
        c
    }

    /// Set the sandbox configuration.
    pub fn config(self, config: SandboxConfig) -> (c: SandboxedCommand<'a>)
        ensures
            c.config == config,
            c.command == self.command,
            c.working_dir == self.working_dir,
            c.env_vars == self.env_vars,
            c.extra_read_paths == self.extra_read_paths,
            c.extra_write_paths == self.extra_write_paths,
    {
        let mut c = self;
        c.config = config;
        c
    }

    /// Add a readable path.
    pub fn read_path(self, path: String) -> (c: SandboxedCommand<'a>)
        ensures
            c.extra_read_paths@ == self.extra_read_paths@.push(path),
            c.command == self.command,
            c.working_dir == self.working_dir,
            c.env_vars == self.env_vars,
            c.config == self.config,
            c.extra_write_paths == self.extra_write_paths,
    {
        let mut c = self;
        c.extra_read_paths.push(path);
        c
    }

    /// Add a writable path (which is also readable).
    pub fn write_path(self, path: String) -> (c: SandboxedCommand<'a>)
        ensures
            c.extra_write_paths@ == self.extra_write_paths@.push(path),
            c.command == self.command,
            c.working_dir == self.working_dir,
            c.env_vars == self.env_vars,
            c.config == self.config,
            c.extra_read_paths == self.extra_read_paths,
    {
        let mut c = self;
        c.extra_write_paths.push(path);
        c
    }

    /// Turn sandboxing off for this command.
    pub fn no_sandbox(self) -> (c: SandboxedCommand<'a>)
        ensures
            !c.config.enabled,
            c.config.fs_read == self.config.fs_read,
            c.config.fs_write == self.config.fs_write,
            c.config.network == self.config.network,
            c.config.include_default_read_paths == self.config.include_default_read_paths,
            c.config.include_user_dirs == self.config.include_user_dirs,
            c.command == self.command,
            c.working_dir == self.working_dir,
            c.env_vars == self.env_vars,
            c.extra_read_paths == self.extra_read_paths,
            c.extra_write_paths == self.extra_write_paths,
    {
        let mut c = self;
        c.config.enabled = false;
        c
    }
}

/// The paths always readable in a sandbox with the defaults: system
/// libraries and binaries, the loader's configuration, certificates, name
/// resolution, users and groups, time zone, `/proc`, `/sys` and the
/// standard device nodes.
pub open spec fn spec_default_read_paths() -> Seq<Seq<char>> {
    seq![
        "/usr"@, "/lib"@, "/lib64"@, "/bin"@, "/sbin"@, "/etc/ld.so.cache"@, "/etc/ld.so.conf"@,
        "/etc/ld.so.conf.d"@, "/etc/ssl/certs"@, "/etc/ca-certificates"@, "/etc/pki"@,
        "/etc/resolv.conf"@, "/etc/hosts"@, "/etc/passwd"@, "/etc/group"@, "/etc/nsswitch.conf"@,
        "/etc/localtime"@, "/proc"@, "/sys"@, "/dev/null"@, "/dev/zero"@, "/dev/urandom"@,
        "/dev/random"@, "/dev/fd"@, "/dev/stdin"@, "/dev/stdout"@, "/dev/stderr"@, "/dev/tty"@,
    ]
}

/// The paths always writable in a sandbox: device nodes and `/tmp`.
pub open spec fn spec_default_write_paths() -> Seq<Seq<char>> {
    seq![
        "/dev/null"@, "/dev/zero"@, "/dev/tty"@, "/dev/stdin"@, "/dev/stdout"@, "/dev/stderr"@,
        "/dev/fd"@, "/dev/pts"@, "/dev/ptmx"@, "/tmp"@,
    ]
}

fn push_text(v: &mut Vec<String>, s: &str)
    ensures
        texts(final(v)@) == texts(old(v)@).push(s@),
{
    let ghost before = texts(v@);
    v.push(string_of(&chars_of(s)));
    assert(texts(v@) =~= before.push(s@));
}

/// The default readable paths.
pub fn default_read_paths() -> (r: Vec<String>)
    ensures
        texts(r@) == spec_default_read_paths(),
{
    let mut r: Vec<String> = Vec::new();
    push_text(&mut r, "/usr");
    push_text(&mut r, "/lib");
    push_text(&mut r, "/lib64");
    push_text(&mut r, "/bin");
    push_text(&mut r, "/sbin");
    push_text(&mut r, "/etc/ld.so.cache");
    push_text(&mut r, "/etc/ld.so.conf");
    push_text(&mut r, "/etc/ld.so.conf.d");
    push_text(&mut r, "/etc/ssl/certs");
    push_text(&mut r, "/etc/ca-certificates");
    push_text(&mut r, "/etc/pki");
    push_text(&mut r, "/etc/resolv.conf");
    push_text(&mut r, "/etc/hosts");
    push_text(&mut r, "/etc/passwd");
    push_text(&mut r, "/etc/group");
    push_text(&mut r, "/etc/nsswitch.conf");
    push_text(&mut r, "/etc/localtime");
    push_text(&mut r, "/proc");
    push_text(&mut r, "/sys");
    push_text(&mut r, "/dev/null");
    push_text(&mut r, "/dev/zero");
    push_text(&mut r, "/dev/urandom");
    push_text(&mut r, "/dev/random");
    push_text(&mut r, "/dev/fd");
    push_text(&mut r, "/dev/stdin");
    push_text(&mut r, "/dev/stdout");
    push_text(&mut r, "/dev/stderr");
    push_text(&mut r, "/dev/tty");
    assert(texts(r@) =~= spec_default_read_paths());
    r
}

/// The default writable paths.
pub fn default_write_paths() -> (r: Vec<String>)
    ensures
        texts(r@) == spec_default_write_paths(),
{
    let mut r: Vec<String> = Vec::new();
    push_text(&mut r, "/dev/null");
    push_text(&mut r, "/dev/zero");
    push_text(&mut r, "/dev/tty");
    push_text(&mut r, "/dev/stdin");
    push_text(&mut r, "/dev/stdout");
    push_text(&mut r, "/dev/stderr");
    push_text(&mut r, "/dev/fd");
    push_text(&mut r, "/dev/pts");
    push_text(&mut r, "/dev/ptmx");
    push_text(&mut r, "/tmp");
    assert(texts(r@) =~= spec_default_write_paths());
    r
}

fn copy_all(dst: &mut Vec<String>, src: &Vec<String>)
    ensures
        final(dst)@ == old(dst)@ + src@,
{
    let ghost start = dst@;
    let mut i: usize = 0;
    while i < src.len()
        invariant
            i <= src@.len(),
            dst@ == start + src@.subrange(0, i as int),
        decreases src.len() - i,
    {
        dst.push(src[i].clone());
        i = i + 1;
        assert(dst@ =~= start + src@.subrange(0, i as int));
    }
    assert(src@.subrange(0, src@.len() as int) =~= src@);
}

/// What a sandboxed run may read: the defaults where the configuration
/// includes them, then the configuration's paths, then the command's.
pub open spec fn spec_read_paths(c: SandboxedCommand) -> Seq<Seq<char>> {
    (if c.config.include_default_read_paths {
        spec_default_read_paths()
    } else {
        Seq::empty()
    }) + texts(c.config.fs_read@) + texts(c.extra_read_paths@)
}

/// What a sandboxed run may write: the working directory, the defaults,
/// the user's directories (`user_dirs`) where the configuration includes
/// them, then the configuration's paths, then the command's.
pub open spec fn spec_write_paths(c: SandboxedCommand, user_dirs: Seq<Seq<char>>) -> Seq<Seq<char>> {
    seq![c.working_dir@] + spec_default_write_paths() + (if c.config.include_user_dirs {
        user_dirs
    } else {
        Seq::empty()
    }) + texts(c.config.fs_write@) + texts(c.extra_write_paths@)
}

proof fn lemma_texts_add(a: Seq<String>, b: Seq<String>)
    ensures
        texts(a + b) == texts(a) + texts(b),
{
    assert(texts(a + b) =~= texts(a) + texts(b));
}

/// The paths a sandboxed run of `cmd` may read.
pub fn read_paths(cmd: &SandboxedCommand) -> (r: Vec<String>)
    ensures
        texts(r@) == spec_read_paths(*cmd),
{
    let mut r: Vec<String> = if cmd.config.include_default_read_paths {
        default_read_paths()
    } else {
        Vec::new()
    };
    let ghost r0 = r@;
    copy_all(&mut r, &cmd.config.fs_read);
    let ghost r1 = r@;
    copy_all(&mut r, &cmd.extra_read_paths);
    proof {
        lemma_texts_add(r0, cmd.config.fs_read@);
        lemma_texts_add(r1, cmd.extra_read_paths@);
        if !cmd.config.include_default_read_paths {
            assert(texts(r0) =~= Seq::<Seq<char>>::empty());
        }
    }
    r
}

/// The paths a sandboxed run of `cmd` may write, `user_dirs` being the
/// user's cache, config and data directories.
pub fn write_paths(cmd: &SandboxedCommand, user_dirs: &Vec<String>) -> (r: Vec<String>)
    ensures
        texts(r@) == spec_write_paths(*cmd, texts(user_dirs@)),
{
    let mut r: Vec<String> = Vec::new();
    r.push(cmd.working_dir.clone());
    let ghost r0 = r@;
    copy_all(&mut r, &default_write_paths());
    let ghost r1 = r@;
    if cmd.config.include_user_dirs {
        copy_all(&mut r, user_dirs);
    }
    let ghost r2 = r@;
    copy_all(&mut r, &cmd.config.fs_write);
    let ghost r3 = r@;
    copy_all(&mut r, &cmd.extra_write_paths);
    proof {
        assert(texts(r0) =~= seq![cmd.working_dir@]);
        lemma_texts_add(r2, cmd.config.fs_write@);
        lemma_texts_add(r3, cmd.extra_write_paths@);
        if cmd.config.include_user_dirs {
            lemma_texts_add(r1, user_dirs@);
        } else {
            assert(r2 == r1);
            assert(texts(r1) + Seq::<Seq<char>>::empty() =~= texts(r1));
        }
        assert(r1 == r0 + (r1.subrange(r0.len() as int, r1.len() as int)));
    }
    assert(texts(r@) =~= spec_write_paths(*cmd, texts(user_dirs@)));
    r
}

/// How a command is run.
#[derive(Debug)]
pub enum RunMode {
    /// Without restrictions: the sandbox is off, or the kernel has no
    /// Landlock.
    Direct,
    /// Under the sandbox's rules.
    Sandboxed,
}

/// How to run a command whose sandbox is `enabled`, on a kernel that does
/// or does not support Landlock: sandboxed only where both hold.
pub fn run_mode(enabled: bool, landlock_supported: bool) -> (m: RunMode)
    ensures
        m is Sandboxed <==> enabled && landlock_supported,
{
    if enabled && landlock_supported {
        RunMode::Sandboxed
    } else {
        RunMode::Direct
    }
}

/// Whether network rules apply: the Landlock ABI (`abi`, counted from 1)
/// enforces them from version 4 on, and the configuration does not allow
/// all network access.
pub fn restricts_network(abi: u8, network: &NetworkConfig) -> (b: bool)
    ensures
        b == (abi >= 4 && !network.allow_all),
{
    abi >= 4 && !network.allow_all
}

} // verus!

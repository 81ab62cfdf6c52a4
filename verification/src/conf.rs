use crate::config::{config_text, render_config, RpcTarget};
use crate::error::Error;
use crate::storage::Storage;
use vstd::prelude::*;

verus! {

/// How many times the oracle process may be spawned by default.
pub const DEFAULT_ATTEMPTS: u8 = 5;

/// The address the oracle binds to when none is configured.
pub const DEFAULT_IP: &'static str = "127.0.0.1";

/// The option that names the oracle's data directory.
pub const DATADIR_FLAG: &'static str = "--datadir";

/// Settings for one blindbit-oracle instance.
#[derive(Debug, PartialEq, Eq, Clone)]
#[non_exhaustive]
pub struct Conf<'a> {
    /// command line arguments
    pub args: Vec<&'a str>,
    /// Try to spawn the process `attempts` times.
    ///
    /// The OS hands out available ports, but does not book them, so rarely one is
    /// taken when the process spawns; retrying with other ports makes a conflict negligible.
    attempts: u8,
    /// The ip to bind to
    pub ip: Option<String>,
    /// The port to listen on
    pub port: Option<u16>,
    /// Path to the binary
    pub binary: Option<String>,
    /// Storage strategy for tweaks
    pub storage: Storage,
    /// Skip UTXO processing (filters, spent index, etc.)
    ///
    /// When `true`, the server only handles tweak storage, not UTXO tracking.
    /// Cannot be `true` together with `Storage::DustFilterCutThrough`
    /// (cut-through requires UTXO tracking to prune spent outputs).
    pub tweaks_only: bool,
}

/// The mathematical model of a [`Conf`]: every setting, strings taken as characters.
pub struct ConfView {
    pub args: Seq<Seq<char>>,
    pub attempts: u8,
    pub ip: Option<Seq<char>>,
    pub port: Option<u16>,
    pub binary: Option<Seq<char>>,
    pub storage: Storage,
    pub tweaks_only: bool,
}

/// The characters of an optional string.
pub open spec fn opt_chars(s: Option<String>) -> Option<Seq<char>> {
    match s {
        Some(s) => Some(s@),
        None => None,
    }
}

impl ConfView {
    /// The settings the server accepts together: `tweaks_only` is never
    /// combined with cut-through storage.
    pub open spec fn is_consistent(self) -> bool {
        self.tweaks_only ==> self.storage != Storage::DustFilterCutThrough
    }

    /// All settings at their defaults except `storage` and `tweaks_only`.
    pub open spec fn defaults_with(storage: Storage, tweaks_only: bool) -> ConfView {
        ConfView {
            args: Seq::empty(),
            attempts: DEFAULT_ATTEMPTS,
            ip: None,
            port: None,
            binary: None,
            storage,
            tweaks_only,
        }
    }
}

/// The default settings with a chosen storage and tweaks-only mode differ from the
/// plain defaults in exactly those two settings: the storage and the mode asked
/// for, and nothing else.
pub proof fn lemma_defaults_differ_only_in_mode(storage: Storage, tweaks_only: bool)
    ensures
        ConfView::defaults_with(storage, tweaks_only).storage == storage,
        ConfView::defaults_with(storage, tweaks_only).tweaks_only == tweaks_only,
        ConfView::defaults_with(storage, tweaks_only) == (ConfView {
            storage,
            tweaks_only,
            ..ConfView::defaults_with(Storage::DustFilterCutThrough, false)
        }),
        ConfView::defaults_with(Storage::DustFilterCutThrough, false).args.len() == 0,
        ConfView::defaults_with(Storage::DustFilterCutThrough, false).attempts == 5,
        ConfView::defaults_with(Storage::DustFilterCutThrough, false).ip is None,
        ConfView::defaults_with(Storage::DustFilterCutThrough, false).port is None,
        ConfView::defaults_with(Storage::DustFilterCutThrough, false).binary is None,
        !ConfView::defaults_with(Storage::DustFilterCutThrough, false).tweaks_only,
{
}

impl<'a> View for Conf<'a> {
    type V = ConfView;

    closed spec fn view(&self) -> ConfView {
        ConfView {
            args: self.args@.map_values(|a: &'a str| a@),
            attempts: self.attempts,
            ip: opt_chars(self.ip),
            port: self.port,
            binary: opt_chars(self.binary),
            storage: self.storage,
            tweaks_only: self.tweaks_only,
        }
    }
}

impl<'a> Default for Conf<'a> {
    /// No extra arguments, 5 attempts, ip, port and binary chosen at start,
    /// cut-through storage with UTXO tracking.
    fn default() -> (conf: Self)
        ensures
            conf@ == ConfView::defaults_with(Storage::DustFilterCutThrough, false),
            conf@.is_consistent(),
            conf@.args.len() == 0,
            conf@.attempts == 5,
            conf@.ip is None,
            conf@.port is None,
            conf@.binary is None,
            conf@.storage == Storage::DustFilterCutThrough,
            conf@.tweaks_only == false,
    {
        let conf = Conf {
            args: Vec::new(),
            attempts: DEFAULT_ATTEMPTS,
            ip: None,
            port: None,
            binary: None,
            storage: Storage::DustFilterCutThrough,
            tweaks_only: false,
        };
        assert(conf@.args =~= Seq::<Seq<char>>::empty());
        conf
    }
}

impl<'a> Conf<'a> {
    /// Create a new Conf with the specified storage strategy
    pub fn with_storage(storage: Storage) -> (conf: Self)
        ensures
            conf@ == ConfView::defaults_with(storage, false),
            conf@.is_consistent(),
            conf@.args.len() == 0,
            conf@.attempts == 5,
            conf@.ip is None,
            conf@.port is None,
            conf@.binary is None,
            conf@.storage == storage,
            conf@.tweaks_only == false,
    {
        let conf = Conf { storage, ..Conf::default() };
        assert(conf@.args =~= Seq::<Seq<char>>::empty());
        conf
    }

    /// Create a new Conf with tweaks_only mode and given storage.
    ///
    /// The storage must not be `DustFilterCutThrough`, which is incompatible
    /// with tweaks_only (it requires UTXO tracking).
    pub fn tweaks_only_with(storage: Storage) -> (conf: Self)
        requires
            storage != Storage::DustFilterCutThrough,
        ensures
            conf@ == ConfView::defaults_with(storage, true),
            conf@.is_consistent(),
            conf@.args.len() == 0,
            conf@.attempts == 5,
            conf@.ip is None,
            conf@.port is None,
            conf@.binary is None,
            conf@.storage == storage,
            conf@.tweaks_only == true,
    {
        let conf = Conf { storage, tweaks_only: true, ..Conf::default() };
        assert(conf@.args =~= Seq::<Seq<char>>::empty());
        conf
    }
}

impl<'a> Conf<'a> {
    /// How many times the oracle process may be spawned before the start gives up.
    pub fn attempts(&self) -> (n: u8)
        ensures
            n == self@.attempts,
    {
        self.attempts
    }

    /// The oracle's configuration file for these settings: it listens on
    /// `ip:port`, follows bitcoind at `rpc`, and uses this storage and tweaks-only mode.
    pub fn config_file(&self, ip: &str, port: u16, rpc: &RpcTarget) -> (text: String)
        ensures
            text@ == config_text(
                ip@,
                port,
                rpc.ip,
                rpc.port,
                rpc.cookie_path@,
                self@.tweaks_only,
                self@.storage,
            ),
    {
        render_config(ip, port, rpc, self.tweaks_only, self.storage)
    }

    /// The address to bind to: the configured one, else [`DEFAULT_IP`].
    pub fn listen_ip(&self) -> (ip: String)
        ensures
            ip@ == (match self@.ip {
                Some(ip) => ip,
                None => DEFAULT_IP@,
            }),
    {
        match &self.ip {
            Some(ip) => ip.clone(),
            None => DEFAULT_IP.to_owned(),
        }
    }

    /// The port to listen on, given the outcome of asking the OS for a free port.
    ///
    /// The free port is looked up whether or not a port is configured, so a failed
    /// lookup fails the start in either case; otherwise the configured port wins.
    pub fn listen_port(&self, available: Result<u16, Error>) -> (port: Result<u16, Error>)
        ensures
            available is Err ==> port == available,
            available matches Ok(free) ==> port == Ok::<u16, Error>(
                match self@.port {
                    Some(p) => p,
                    None => free,
                },
            ),
    {
        match available {
            Err(e) => Err(e),
            Ok(free) => match self.port {
                Some(p) => Ok(p),
                None => Ok(free),
            },
        }
    }

    /// The oracle binary to run: the configured path, else the bundled one
    /// (`None` when neither is at hand).
    pub fn binary_path(&self, bundled: Option<String>) -> (path: Option<String>)
        ensures
            opt_chars(path) == (match self@.binary {
                Some(b) => Some(b),
                None => opt_chars(bundled),
            }),
    {
        match &self.binary {
            Some(b) => Some(b.clone()),
            None => bundled,
        }
    }

    /// The oracle's command line: the configured arguments, then
    /// `--datadir` and the data directory.
    pub fn daemon_args(&self, datadir: &'a str) -> (args: Vec<&'a str>)
        ensures
            args@.map_values(|a: &'a str| a@) == self@.args + seq![DATADIR_FLAG@, datadir@],
    {
        let mut args: Vec<&'a str> = Vec::new();
        let n: usize = self.args.len();
        for i in 0..n
            invariant
                n == self.args@.len(),
                args@ == self.args@.subrange(0, i as int),
        {
            args.push(self.args[i]);
            assert(args@ =~= self.args@.subrange(0, i + 1));
        }
        assert(args@ =~= self.args@);
        args.push(DATADIR_FLAG);
        args.push(datadir);
        assert(args@.map_values(|a: &'a str| a@) =~= self@.args + seq![DATADIR_FLAG@, datadir@]);
        args
    }
}

} // verus!

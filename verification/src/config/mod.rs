//! The daemon's configuration: command-line arguments, then the configuration file, then
//! defaults below the home directory.
use vstd::prelude::*;
use vstd::string::StringExecFns;

use crate::constants::{ARTI_KEYSTORE, CACHE_PATH, CONFIG_PATH, DAEMON_SOCKET, DATABASE_PATH};

verus! {

/// Command-line arguments.
#[derive(Debug)]
pub struct ConanArgs {
    /// Config file.
    pub config: Option<String>,
    /// Socket location.
    pub socket: Option<String>,
    /// Key store path.
    pub key: Option<String>,
    /// Cache storage path.
    pub cache: Option<String>,
    /// Database path.
    pub db_path: Option<String>,
}

/// The values the configuration file gives, under the keys `socket-path`, `key-path`,
/// `cache-path` and `database-path` (none when the file could not be read).
#[derive(Debug, Clone)]
pub struct ConfigFileValues {
    pub socket_path: Option<String>,
    pub key_path: Option<String>,
    pub cache_path: Option<String>,
    pub database_path: Option<String>,
}

/// The final configuration.
#[derive(Debug, Clone)]
pub struct ConanConfig {
    pub socket_path: String,
    pub arti_key_store: String,
    pub cache_path: String,
    pub db_path: String,
}

pub open spec fn opt_text(s: Option<String>) -> Option<Seq<char>> {
    match s {
        Some(s) => Some(s@),
        None => None,
    }
}

/// A setting: the command-line argument, else the configuration file's value, else the
/// default below the home directory.
pub open spec fn setting(arg: Option<Seq<char>>, file: Option<Seq<char>>, home: Seq<char>, suffix: Seq<char>) -> Seq<char> {
    match arg {
        Some(a) => a,
        None => match file {
            Some(f) => f,
            None => home + suffix,
        },
    }
}

/// `home` followed by `suffix`.
fn below_home(home: &str, suffix: &str) -> (p: String)
    ensures
        p@ == home@ + suffix@,
{
    let mut p = home.to_owned();
    p.append(suffix);
    p
}

fn choose_setting(arg: Option<String>, file: Option<String>, home: &str, suffix: &str) -> (p: String)
    ensures
        p@ == setting(opt_text(arg), opt_text(file), home@, suffix@),
{
    match arg {
        Some(a) => a,
        None => match file {
            Some(f) => f,
            None => below_home(home, suffix),
        },
    }
}

/// The configuration file to read: the one given on the command line, else the default
/// below the home directory.
pub fn config_file_path(args: &ConanArgs, home: &str) -> (p: String)
    ensures
        p@ == setting(opt_text(args.config), None, home@, CONFIG_PATH@),
{
    match &args.config {
        Some(c) => c.clone(),
        None => below_home(home, CONFIG_PATH),
    }
}

/// Decides the final configuration from the command-line arguments, the configuration
/// file's values and the home directory.
pub fn resolve_config(args: ConanArgs, file: ConfigFileValues, home: &str) -> (c: ConanConfig)
    ensures
        c.socket_path@ == setting(opt_text(args.socket), opt_text(file.socket_path), home@, DAEMON_SOCKET@),
        c.arti_key_store@ == setting(opt_text(args.key), opt_text(file.key_path), home@, ARTI_KEYSTORE@),
        c.cache_path@ == setting(opt_text(args.cache), opt_text(file.cache_path), home@, CACHE_PATH@),
        c.db_path@ == setting(opt_text(args.db_path), opt_text(file.database_path), home@, DATABASE_PATH@),
{
    let socket_path = choose_setting(args.socket, file.socket_path, home, DAEMON_SOCKET);
    let arti_key_store = choose_setting(args.key, file.key_path, home, ARTI_KEYSTORE);
    let cache_path = choose_setting(args.cache, file.cache_path, home, CACHE_PATH);
    let db_path = choose_setting(args.db_path, file.database_path, home, DATABASE_PATH);
    ConanConfig { socket_path, arti_key_store, cache_path, db_path }
}

/// A command-line argument wins over the configuration file, and the file over the default;
/// the default is the path below the home directory.
pub proof fn lemma_setting_precedence(arg: Option<Seq<char>>, file: Option<Seq<char>>, home: Seq<char>, suffix: Seq<char>)
    ensures
        arg is Some ==> setting(arg, file, home, suffix) == arg->0,
        arg is None && file is Some ==> setting(arg, file, home, suffix) == file->0,
        arg is None && file is None ==> setting(arg, file, home, suffix).len() == home.len() + suffix.len()
            && setting(arg, file, home, suffix).take(home.len() as int) == home
            && setting(arg, file, home, suffix).skip(home.len() as int) == suffix,
{
    if arg is None && file is None {
        assert((home + suffix).take(home.len() as int) =~= home);
        assert((home + suffix).skip(home.len() as int) =~= suffix);
    }
}

} // verus!

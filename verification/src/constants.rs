//! Protocol constants and default locations.
use vstd::prelude::*;

verus! {

/// Port the onion service listens on.
pub const SELF_PORT: u16 = 80;

/// HKDF `info` label of the key that encrypts a peer connection.
pub const ENCRYPTION_INFO: &'static str = "tor-secret-conan-secret";

/// Where the list of running Tor relays is published.
pub const TOR_RELAY_LIST_URL: &'static str = "https://onionoo.torproject.org/summary?type=relay&running=true";

/// Maximum size of the bounded channel of a peer connection.
pub const BOUNDED_CHANNEL_SIZE: usize = 100;

/// Key storage directory of the Tor client, below the home directory.
pub const ARTI_KEYSTORE: &'static str = "/.conan/tor_state";

/// Private key of the Tor client that signs the key exchange, below the key storage directory.
pub const ARTI_PRIVATE_KEY: &'static str = "/keystore/hss/conan-daemon/ks_hs_id.ed25519_expanded_private";

/// Location of the daemon's socket for inter-process communication, below the home directory.
pub const DAEMON_SOCKET: &'static str = "/var/conan/conan.socket";

/// Directory of the daemon's socket.
pub const DAEMON_DIRECTORY: &'static str = "/var/conan";

/// Configuration file, below the home directory.
pub const CONFIG_PATH: &'static str = "/.conan/conan.toml";

/// Cache directory of the Tor client, below the home directory.
pub const CACHE_PATH: &'static str = "/.conan/cache";

/// Local database, below the home directory.
pub const DATABASE_PATH: &'static str = "/.conan/conan.db";

} // verus!

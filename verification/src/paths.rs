//! File locations of the monitor: its directory under the home directory and
//! the files and sockets inside it, composed as Unix paths.

use vstd::prelude::*;

verus! {

/// Name of the configuration file inside the monitor's directory.
pub const CFG_FILE: &'static str = "quadro.toml";

/// Name of the history cache inside the monitor's directory.
pub const HIST_FILE: &'static str = "cache.bin";

/// Name of the monitor's directory inside the home directory.
pub const QUADRO_DIR: &'static str = ".quadro";

/// Name of the server's socket file inside the monitor's directory.
pub const SERVER_SOCKET: &'static str = "quadro.sock";

/// Name of the client's socket file inside the monitor's directory.
pub const CLIENT_SOCKET: &'static str = "client.sock";

/// Port on which the server listens for its client.
pub const SRV_PORT: u16 = 12345;

/// The path `base` extended by `part`: `part` itself where it is absolute or
/// `base` is empty, else the two joined by one separator `/` (none is added
/// where `base` already ends in one).
pub open spec fn joined(base: Seq<char>, part: Seq<char>) -> Seq<char> {
    if part.len() > 0 && part[0] == '/' {
        part
    } else if base.len() == 0 || base.last() == '/' {
        base + part
    } else {
        base + seq!['/'] + part
    }
}

/// Extends the path `base` by `part` (see [`joined`]).
pub fn join_path(base: &str, part: &str) -> (r: String)
    ensures
        r@ == joined(base@, part@),
{
    let plen = part.unicode_len();
    if plen > 0 && part.get_char(0) == '/' {
        return part.to_owned();
    }
    let blen = base.unicode_len();
    let mut r = base.to_owned();
    if blen > 0 && base.get_char(blen - 1) != '/' {
        r.append("/");
        proof {
            reveal_strlit("/");
        }
    }
    r.append(part);
    r
}

/// The monitor's directory for the home directory `home`.
pub open spec fn spec_base_path(home: Seq<char>) -> Seq<char> {
    joined(home, QUADRO_DIR@)
}

/// The monitor's directory for the home directory `home`.
pub fn base_path(home: &str) -> (r: String)
    ensures
        r@ == spec_base_path(home@),
{
    join_path(home, QUADRO_DIR)
}

/// The server's socket file for the home directory `home`.
pub fn srv_socket_file(home: &str) -> (r: String)
    ensures
        r@ == joined(spec_base_path(home@), SERVER_SOCKET@),
{
    let base = base_path(home);
    join_path(base.as_str(), SERVER_SOCKET)
}

/// The client's socket file for the home directory `home`.
pub fn cln_socket_file(home: &str) -> (r: String)
    ensures
        r@ == joined(spec_base_path(home@), CLIENT_SOCKET@),
{
    let base = base_path(home);
    join_path(base.as_str(), CLIENT_SOCKET)
}

} // verus!

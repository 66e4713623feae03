//! Command-line arguments of the server binary, and the addresses it listens on.
use crate::text::{
    decimal, parse_unsigned, parse_unsigned_exec, push_all, push_str_chars, rfind_char,
    slice_to_vec, str_chars, str_eq, string_from_chars, u64_decimal,
};
use vstd::prelude::*;

verus! {

pub const DEFAULT_ADDR: &'static str = "127.0.0.1:8080";

pub const DEFAULT_DATA_DIR: &'static str = "./data";

/// What the command line asks for.
#[derive(Debug)]
pub struct AppConfig {
    pub addr: String,
    pub data_dir: String,
    pub headless: bool,
}

/// Why the command line ends the program before it starts.
#[derive(Debug)]
pub enum CliExit {
    Help,
    Version,
    Error(String),
}

impl PartialEq for CliExit {
    fn eq(&self, other: &Self) -> (r: bool) {
        match (self, other) {
            (CliExit::Help, CliExit::Help) => true,
            (CliExit::Version, CliExit::Version) => true,
            (CliExit::Error(a), CliExit::Error(b)) => str_eq(a.as_str(), b.as_str()),
            _ => false,
        }
    }
}

impl vstd::std_specs::cmp::PartialEqSpecImpl for CliExit {
    open spec fn obeys_eq_spec() -> bool {
        true
    }

    open spec fn eq_spec(&self, other: &Self) -> bool {
        match (self, other) {
            (CliExit::Help, CliExit::Help) => true,
            (CliExit::Version, CliExit::Version) => true,
            (CliExit::Error(a), CliExit::Error(b)) => a@ == b@,
            _ => false,
        }
    }
}

/// The body of the help text, after the first line's version.
pub const USAGE_BODY: &'static str = "

Usage:
  saelora [--addr <HOST:PORT>] [--data-dir <PATH>] [--headless]

Options:
  --addr <HOST:PORT>     Bind address (default: 127.0.0.1:8080)
  --data-dir <PATH>      Data directory (default: ./data)
  --headless             Run without the TUI (server-only)
  -h, --help             Show this help and exit
  --version              Show version and exit
";

/// The help text for a build of version `version`.
pub fn usage(version: &str) -> (r: String)
    ensures
        r@ == "saelora "@ + version@ + USAGE_BODY@,
{
    let mut v = str_chars("saelora ");
    push_str_chars(&mut v, version);
    push_str_chars(&mut v, USAGE_BODY);
    string_from_chars(v.as_slice())
}

/// The outcome of reading `args`, left to right: a help or version flag
/// ends the reading; `--addr` and `--data-dir` take the next argument (the
/// last one given wins); `--headless` sets the flag; anything else is an
/// error.
pub open spec fn parse_from(args: Seq<Seq<char>>, addr: Seq<char>, data_dir: Seq<char>, headless: bool) -> Result<
    (Seq<char>, Seq<char>, bool),
    (int, Seq<char>),
>
    decreases args.len(),
{
    if args.len() == 0 {
        Ok((addr, data_dir, headless))
    } else {
        let a = args[0];
        if a == "-h"@ || a == "--help"@ {
            Err((0, Seq::empty()))
        } else if a == "--version"@ {
            Err((1, Seq::empty()))
        } else if a == "--addr"@ {
            if args.len() < 2 {
                Err((2, "missing value for --addr"@))
            } else {
                parse_from(args.subrange(2, args.len() as int), args[1], data_dir, headless)
            }
        } else if a == "--data-dir"@ {
            if args.len() < 2 {
                Err((2, "missing value for --data-dir"@))
            } else {
                parse_from(args.subrange(2, args.len() as int), addr, args[1], headless)
            }
        } else if a == "--headless"@ {
            parse_from(args.drop_first(), addr, data_dir, true)
        } else {
            Err((2, "unknown flag: "@ + a))
        }
    }
}

/// The result of [`parse_from`] as the library's types give it.
pub open spec fn cli_outcome(r: Result<AppConfig, CliExit>) -> Result<
    (Seq<char>, Seq<char>, bool),
    (int, Seq<char>),
> {
    match r {
        Ok(c) => Ok((c.addr@, c.data_dir@, c.headless)),
        Err(CliExit::Help) => Err((0, Seq::empty())),
        Err(CliExit::Version) => Err((1, Seq::empty())),
        Err(CliExit::Error(m)) => Err((2, m@)),
    }
}

pub open spec fn arg_views(args: Seq<&str>) -> Seq<Seq<char>> {
    args.map_values(|a: &str| a@)
}

/// Reads the command-line arguments (without the program name).
pub fn parse_args_from(args: &[&str]) -> (r: Result<AppConfig, CliExit>)
    ensures
        cli_outcome(r) == parse_from(arg_views(args@), DEFAULT_ADDR@, DEFAULT_DATA_DIR@, false),
{
    let mut addr = String::from_str(DEFAULT_ADDR);
    let mut data_dir = String::from_str(DEFAULT_DATA_DIR);
    let mut headless = false;
    let mut i: usize = 0;
    let ghost all = arg_views(args@);
    proof {
        assert(all.subrange(0, all.len() as int) =~= all);
    }
    while i < args.len()
        invariant
            i <= args@.len(),
            all == arg_views(args@),
            parse_from(all, DEFAULT_ADDR@, DEFAULT_DATA_DIR@, false) == parse_from(
                all.subrange(i as int, all.len() as int),
                addr@,
                data_dir@,
                headless,
            ),
        decreases args@.len() - i,
    {
        let a = args[i];
        let ghost rest = all.subrange(i as int, all.len() as int);
        proof {
            assert(rest[0] == a@);
            assert(rest.len() == args@.len() - i);
        }
        if str_eq(a, "-h") || str_eq(a, "--help") {
            return Err(CliExit::Help);
        } else if str_eq(a, "--version") {
            return Err(CliExit::Version);
        } else if str_eq(a, "--addr") {
            if i + 1 >= args.len() {
                return Err(CliExit::Error(String::from_str("missing value for --addr")));
            }
            addr = String::from_str(args[i + 1]);
            proof {
                assert(rest[1] == args@[i + 1]@);
                assert(rest.subrange(2, rest.len() as int) =~= all.subrange(i + 2, all.len() as int));
            }
            i = i + 2;
        } else if str_eq(a, "--data-dir") {
            if i + 1 >= args.len() {
                return Err(CliExit::Error(String::from_str("missing value for --data-dir")));
            }
            data_dir = String::from_str(args[i + 1]);
            proof {
                assert(rest[1] == args@[i + 1]@);
                assert(rest.subrange(2, rest.len() as int) =~= all.subrange(i + 2, all.len() as int));
            }
            i = i + 2;
        } else if str_eq(a, "--headless") {
            headless = true;
            proof {
                assert(rest.drop_first() =~= all.subrange(i + 1, all.len() as int));
            }
            i = i + 1;
        } else {
            let mut m = str_chars("unknown flag: ");
            push_str_chars(&mut m, a);
            return Err(CliExit::Error(string_from_chars(m.as_slice())));
        }
    }
    Ok(AppConfig { addr, data_dir, headless })
}

/// `host:port` split at the last colon; the port must parse as a `u16`.
pub open spec fn host_port_of(s: Seq<char>) -> Option<(Seq<char>, nat)> {
    if s.contains(':') {
        let idx = choose|i: int| 0 <= i < s.len() && s[i] == ':' && forall|k: int|
            i < k < s.len() ==> s[k] != ':';
        match parse_unsigned(s.subrange(idx + 1, s.len() as int), 65535) {
            Some(port) => Some((s.subrange(0, idx), port)),
            None => None,
        }
    } else {
        None
    }
}

pub fn split_host_port(s: &str) -> (r: Result<(String, u16), ()>)
    ensures
        match r {
            Ok((host, port)) => host_port_of(s@) == Some((host@, port as nat)),
            Err(_) => host_port_of(s@) is None,
        },
{
    let v = str_chars(s);
    let n = v.len();
    let idx = match rfind_char(v.as_slice(), ':') {
        Some(i) => i,
        None => {
            return Err(());
        },
    };
    proof {
        let c = choose|i: int| 0 <= i < v@.len() && v@[i] == ':' && forall|k: int|
            i < k < v@.len() ==> v@[k] != ':';
        assert(v@[idx as int] == ':');
        if c != idx {
            if c < idx {
                assert(v@[idx as int] != ':');
            } else {
                assert(v@[c] != ':');
            }
        }
    }
    let host = slice_to_vec(v.as_slice(), 0, idx);
    let tail = slice_to_vec(v.as_slice(), idx + 1, v.len());
    match parse_unsigned_exec(tail.as_slice(), 65535) {
        Some(p) => Ok((string_from_chars(host.as_slice()), p as u16)),
        None => Err(()),
    }
}

fn decimal_u16(p: u16) -> (r: Vec<char>)
    ensures
        r@ == decimal(p as nat),
{
    u64_decimal(p as u64)
}

fn joined(host: &str, port: u16) -> (r: String)
    ensures
        r@ == host@ + seq![':'] + decimal(port as nat),
{
    let mut v = str_chars(host);
    v.push(':');
    let d = decimal_u16(port);
    push_all(&mut v, d.as_slice());
    string_from_chars(v.as_slice())
}

/// The socket addresses to try for a listen address, in order: `:port`
/// means every interface of both families; a loopback host means both
/// loopback addresses; anything else is tried as given.
pub open spec fn listen_candidates_of(addr: Seq<char>) -> Seq<Seq<char>> {
    let shorthand = if addr.len() > 0 && addr[0] == ':' {
        parse_unsigned(addr.drop_first(), 65535)
    } else {
        None
    };
    match shorthand {
        Some(port) => seq![
            "0.0.0.0"@ + seq![':'] + decimal(port),
            "[::]"@ + seq![':'] + decimal(port),
        ],
        None => match host_port_of(addr) {
            None => seq![addr],
            Some((host, port)) => if host == "127.0.0.1"@ || host == "localhost"@ {
                seq![
                    "127.0.0.1"@ + seq![':'] + decimal(port),
                    "[::1]"@ + seq![':'] + decimal(port),
                ]
            } else if host == "::1"@ || host == "[::1]"@ {
                seq![
                    "[::1]"@ + seq![':'] + decimal(port),
                    "127.0.0.1"@ + seq![':'] + decimal(port),
                ]
            } else {
                seq![addr]
            },
        },
    }
}

pub fn listen_candidates(addr: &str) -> (r: Vec<String>)
    ensures
        r@.map_values(|s: String| s@) == listen_candidates_of(addr@),
{
    let v = str_chars(addr);
    if v.len() > 0 && v[0] == ':' {
        let tail = slice_to_vec(v.as_slice(), 1, v.len());
        proof {
            assert(tail@ =~= addr@.drop_first());
        }
        match parse_unsigned_exec(tail.as_slice(), 65535) {
            Some(p) => {
                let port = p as u16;
                let mut out: Vec<String> = Vec::new();
                out.push(joined("0.0.0.0", port));
                out.push(joined("[::]", port));
                proof {
                    assert(out@.map_values(|s: String| s@) =~= listen_candidates_of(addr@));
                }
                return out;
            },
            None => {},
        }
    }
    let mut out: Vec<String> = Vec::new();
    match split_host_port(addr) {
        Err(_) => {
            out.push(String::from_str(addr));
        },
        Ok((host, port)) => {
            if str_eq(host.as_str(), "127.0.0.1") || str_eq(host.as_str(), "localhost") {
                out.push(joined("127.0.0.1", port));
                out.push(joined("[::1]", port));
            } else if str_eq(host.as_str(), "::1") || str_eq(host.as_str(), "[::1]") {
                out.push(joined("[::1]", port));
                out.push(joined("127.0.0.1", port));
            } else {
                out.push(String::from_str(addr));
            }
        },
    }
    proof {
        assert(out@.map_values(|s: String| s@) =~= listen_candidates_of(addr@));
    }
    out
}

proof fn lemma_decimal_digits(n: nat)
    ensures
        decimal(n).len() >= 1,
        crate::text::all_digits(decimal(n)),
        crate::text::digits_value(decimal(n)) == n,
    decreases n,
{
    let d = crate::text::digit_char(n % 10);
    assert(d as u32 == 48 + n % 10);
    assert((((d as u32) - ('0' as u32)) as nat) == n % 10);
    if n >= 10 {
        lemma_decimal_digits(n / 10);
        let p = decimal(n / 10);
        let s = decimal(n);
        assert(s == p.push(d));
        assert(s.drop_last() == p);
        assert(s.last() == d);
        assert(crate::text::digits_value(s) == crate::text::digits_value(p) * 10 + n % 10);
        assert((n / 10) * 10 + n % 10 == n);
        assert forall|i: int| 0 <= i < s.len() implies crate::text::is_ascii_digit(#[trigger] s[i]) by {
            if i < p.len() {
                assert(s[i] == p[i]);
            }
        }
    } else {
        let s = decimal(n);
        assert(s.drop_last().len() == 0);
        assert(s.last() == d);
        assert(crate::text::digits_value(s.drop_last()) == 0);
    }
}

/// `host:port` with a port in range splits back into `host` and the port.
proof fn lemma_host_port_of(host: Seq<char>, port: nat)
    requires
        port <= 65535,
    ensures
        host_port_of(host + seq![':'] + decimal(port)) == Some((host, port)),
{
    let s = host + seq![':'] + decimal(port);
    lemma_decimal_digits(port);
    let d = decimal(port);
    let c = host.len() as int;
    assert(s[c] == ':');
    assert(s.contains(':'));
    assert forall|k: int| c < k < s.len() implies s[k] != ':' by {
        assert(s[k] == d[k - c - 1]);
        assert(crate::text::is_ascii_digit(d[k - c - 1]));
    }
    let idx = choose|i: int| 0 <= i < s.len() && s[i] == ':' && forall|k: int| i < k < s.len() ==> s[k] != ':';
    assert(idx == c);
    assert(s.subrange(idx + 1, s.len() as int) == d);
    assert(s.subrange(0, idx) == host);
    assert(d[0] != '+') by {
        assert(crate::text::is_ascii_digit(d[0]));
    }
}

/// The two loopback addresses of a port, IPv4 first.
pub open spec fn loopback_pair(port: nat) -> Seq<Seq<char>> {
    seq!["127.0.0.1"@ + seq![':'] + decimal(port), "[::1]"@ + seq![':'] + decimal(port)]
}

/// A loopback listen address binds both loopback families: for any port,
/// `127.0.0.1:port` gives `127.0.0.1:port` then `[::1]:port`.
pub proof fn law_ipv4_loopback_binds_both_families(port: nat)
    requires
        port <= 65535,
    ensures
        listen_candidates_of("127.0.0.1"@ + seq![':'] + decimal(port)) == loopback_pair(port),
{
    reveal_strlit("127.0.0.1");
    lemma_host_port_of("127.0.0.1"@, port);
    assert(("127.0.0.1"@ + seq![':'] + decimal(port))[0] == '1');
}

/// `localhost:port` gives the same two addresses as `127.0.0.1:port`.
pub proof fn law_localhost_binds_both_families(port: nat)
    requires
        port <= 65535,
    ensures
        listen_candidates_of("localhost"@ + seq![':'] + decimal(port)) == loopback_pair(port),
        listen_candidates_of("localhost"@ + seq![':'] + decimal(port)) == listen_candidates_of(
            "127.0.0.1"@ + seq![':'] + decimal(port),
        ),
{
    law_ipv4_loopback_binds_both_families(port);
    reveal_strlit("localhost");
    reveal_strlit("127.0.0.1");
    lemma_host_port_of("localhost"@, port);
    assert(("localhost"@ + seq![':'] + decimal(port))[0] == 'l');
}

/// The IPv6 loopback binds both families too, IPv6 first: for any port,
/// `[::1]:port` gives `[::1]:port` then `127.0.0.1:port`.
pub proof fn law_ipv6_loopback_binds_both_families(port: nat)
    requires
        port <= 65535,
    ensures
        listen_candidates_of("[::1]"@ + seq![':'] + decimal(port)) == seq![
            loopback_pair(port)[1],
            loopback_pair(port)[0],
        ],
{
    reveal_strlit("[::1]");
    reveal_strlit("127.0.0.1");
    reveal_strlit("localhost");
    lemma_host_port_of("[::1]"@, port);
    assert(("[::1]"@ + seq![':'] + decimal(port))[0] == '[');
    assert("[::1]"@ != "127.0.0.1"@ && "[::1]"@ != "localhost"@) by {
        assert("[::1]"@.len() != "127.0.0.1"@.len());
        assert("[::1]"@.len() != "localhost"@.len());
    }
}

/// `:port` listens on every interface of both families: `0.0.0.0:port` then
/// `[::]:port`.
pub proof fn law_any_interface_binds_both_families(port: nat)
    requires
        port <= 65535,
    ensures
        listen_candidates_of(seq![':'] + decimal(port)) == seq![
            "0.0.0.0"@ + seq![':'] + decimal(port),
            "[::]"@ + seq![':'] + decimal(port),
        ],
{
    lemma_decimal_digits(port);
    let a = seq![':'] + decimal(port);
    assert(a.drop_first() == decimal(port));
    assert(decimal(port)[0] != '+') by {
        assert(crate::text::is_ascii_digit(decimal(port)[0]));
    }
}

/// Any other host is tried as given, alone: a host:port whose host is none of
/// the loopback names, or text that is no host:port at all (and no `:port`).
pub proof fn law_other_addresses_as_given(addr: Seq<char>)
    requires
        addr.len() == 0 || addr[0] != ':',
        match host_port_of(addr) {
            Some((host, _)) => host != "127.0.0.1"@ && host != "localhost"@ && host != "::1"@ && host
                != "[::1]"@,
            None => true,
        },
    ensures
        listen_candidates_of(addr) == seq![addr],
{
}

} // verus!

//! The settings the example programs take from their command lines, with
//! the defaults they fall back on.

use vstd::prelude::*;
use vstd::string::*;
use crate::args::{arg_views, flag_value, get_arg, str_equal};

verus! {

/// The value given for `flag`, or `default` when none is given.
pub open spec fn flag_or(args: Seq<String>, flag: Seq<char>, default: Seq<char>) -> Seq<char> {
    match flag_value(arg_views(args), flag) {
        Some(v) => v,
        None => default,
    }
}

/// The value-or-default agrees with the flag lookup on command lines of any
/// length: the flag's value where it has one, the default where it has none.
pub proof fn lemma_flag_or_agrees(args: Seq<String>, flag: Seq<char>, default: Seq<char>)
    ensures
        flag_value(arg_views(args), flag) matches Some(v) ==> flag_or(args, flag, default) == v,
        flag_value(arg_views(args), flag) is None ==> flag_or(args, flag, default) == default,
{
}

/// The value given after `flag`, or `default` when there is none.
pub fn get_arg_or(args: &[String], flag: &str, default: &str) -> (r: String)
    ensures
        r@ == flag_or(args@, flag@, default@),
        match flag_value(arg_views(args@), flag@) {
            Some(v) => r@ == v,
            None => r@ == default@,
        },
{
    match get_arg(args, flag) {
        Some(v) => v,
        None => String::from_str(default),
    }
}

/// Settings of the embedded server example.
pub struct ServerOptions {
    /// Tunnel control address (`--bind`).
    pub bind: String,
    /// Public HTTP address (`--http-bind`).
    pub http_bind: String,
    /// Shared secret (`--token`).
    pub token: String,
}

/// Reads `--bind` (default `0.0.0.0:7835`), `--http-bind` (default
/// `0.0.0.0:8080`) and `--token` (default `secret`).
pub fn embedded_server_options(args: &[String]) -> (o: ServerOptions)
    ensures
        o.bind@ == flag_or(args@, "--bind"@, "0.0.0.0:7835"@),
        o.http_bind@ == flag_or(args@, "--http-bind"@, "0.0.0.0:8080"@),
        o.token@ == flag_or(args@, "--token"@, "secret"@),
{
    ServerOptions {
        bind: get_arg_or(args, "--bind", "0.0.0.0:7835"),
        http_bind: get_arg_or(args, "--http-bind", "0.0.0.0:8080"),
        token: get_arg_or(args, "--token", "secret"),
    }
}

/// Settings of a tunnel client example.
pub struct ClientOptions {
    /// Address of the tunnel server.
    pub server_addr: String,
    /// Shared secret.
    pub token: String,
    /// Address of the local service to expose.
    pub local_addr: String,
    /// Requested tunnel id, if any.
    pub tunnel_id: Option<String>,
}

/// Reads `--server` (default `localhost:7835`), `--token` (default
/// `secret`), `--local-addr` (default `127.0.0.1:8000`) and the optional
/// `--tunnel-id`.
pub fn embedded_client_options(args: &[String]) -> (o: ClientOptions)
    ensures
        o.server_addr@ == flag_or(args@, "--server"@, "localhost:7835"@),
        o.token@ == flag_or(args@, "--token"@, "secret"@),
        o.local_addr@ == flag_or(args@, "--local-addr"@, "127.0.0.1:8000"@),
        match o.tunnel_id {
            Some(id) => flag_value(arg_views(args@), "--tunnel-id"@) == Some(id@),
            None => flag_value(arg_views(args@), "--tunnel-id"@) is None,
        },
{
    ClientOptions {
        server_addr: get_arg_or(args, "--server", "localhost:7835"),
        token: get_arg_or(args, "--token", "secret"),
        local_addr: get_arg_or(args, "--local-addr", "127.0.0.1:8000"),
        tunnel_id: get_arg(args, "--tunnel-id"),
    }
}

/// Reads the local-development example's `--server` (default
/// `localhost:7835`), `--local` (default `127.0.0.1:3000`) and `--token`
/// (default `dev-tunnel`); it asks for no tunnel id.
pub fn local_dev_options(args: &[String]) -> (o: ClientOptions)
    ensures
        o.server_addr@ == flag_or(args@, "--server"@, "localhost:7835"@),
        o.token@ == flag_or(args@, "--token"@, "dev-tunnel"@),
        o.local_addr@ == flag_or(args@, "--local"@, "127.0.0.1:3000"@),
        o.tunnel_id is None,
{
    ClientOptions {
        server_addr: get_arg_or(args, "--server", "localhost:7835"),
        token: get_arg_or(args, "--token", "dev-tunnel"),
        local_addr: get_arg_or(args, "--local", "127.0.0.1:3000"),
        tunnel_id: None,
    }
}

/// Which side an example runs.
#[derive(Debug, Clone, Copy, PartialEq, Eq, Structural)]
pub enum RunMode {
    Server,
    Client,
}

/// The side a mode word names: `server` or `client`; any other word names
/// none.
pub open spec fn mode_of(word: Seq<char>) -> Option<RunMode> {
    if word == "server"@ {
        Some(RunMode::Server)
    } else if word == "client"@ {
        Some(RunMode::Client)
    } else {
        None
    }
}

/// The side a mode word names.
pub fn parse_mode(word: &str) -> (m: Option<RunMode>)
    ensures
        m == mode_of(word@),
        (m == Some(RunMode::Server)) <==> word@ == "server"@,
        (m == Some(RunMode::Client)) <==> word@ == "client"@,
        m is None <==> (word@ != "server"@ && word@ != "client"@),
{
    proof {
        reveal_strlit("client");
        reveal_strlit("server");
    }
    assert("client"@[0] != "server"@[0]);
    if str_equal(word, "server") {
        Some(RunMode::Server)
    } else if str_equal(word, "client") {
        Some(RunMode::Client)
    } else {
        None
    }
}

/// The TLS example's mode: the word after `--mode` (default `info`); `None`
/// means the example only prints its usage.
pub fn tls_example_mode(args: &[String]) -> (m: Option<RunMode>)
    ensures
        m == mode_of(flag_or(args@, "--mode"@, "info"@)),
{
    let word = get_arg_or(args, "--mode", "info");
    parse_mode(word.as_str())
}

/// The HTTP/2 example's mode: the first argument after the program name
/// (default `client`); `None` means the example prints its usage and exits
/// with status 1.
pub fn pooling_example_mode(args: &[String]) -> (m: Option<RunMode>)
    ensures
        args@.len() > 1 ==> m == mode_of(args@[1]@),
        args@.len() <= 1 ==> m == Some(RunMode::Client),
{
    if args.len() > 1 {
        parse_mode(args[1].as_str())
    } else {
        proof {
            reveal_strlit("client");
            reveal_strlit("server");
        }
        assert("client"@[0] != "server"@[0]);
        Some(RunMode::Client)
    }
}

} // verus!

use tunnel_plugins::decimal::decimal_text;
use tunnel_plugins::args::{get_arg, str_equal};
use tunnel_plugins::echo::{echo_step, EchoEvent, EchoStep, FrameKind};
use tunnel_plugins::options::{
    embedded_client_options, embedded_server_options, get_arg_or, local_dev_options,
    pooling_example_mode, tls_example_mode, RunMode,
};
use tunnel_plugins::tls::{client_tls_settings, required_file, server_tls_settings};

fn args(words: &[&str]) -> Vec<String> {
    words.iter().map(|w| w.to_string()).collect()
}

#[test]
fn get_arg_returns_following_value() {
    let a = args(&["prog", "--server", "localhost:7835", "--token", "my-secret-token"]);
    assert_eq!(get_arg(&a, "--server"), Some("localhost:7835".to_string()));
    assert_eq!(get_arg(&a, "--token"), Some("my-secret-token".to_string()));
    assert_eq!(get_arg(&a, "--local-addr"), None);
}

#[test]
fn get_arg_uses_first_occurrence_and_needs_a_value() {
    let a = args(&["prog", "--token", "a", "--token", "b", "--last"]);
    assert_eq!(get_arg(&a, "--token"), Some("a".to_string()));
    assert_eq!(get_arg(&a, "--last"), None);
    assert_eq!(get_arg(&[], "--token"), None);
    // The value may itself look like a flag.
    let b = args(&["--token", "--bind"]);
    assert_eq!(get_arg(&b, "--token"), Some("--bind".to_string()));
}

#[test]
fn get_arg_or_falls_back() {
    let a = args(&["prog"]);
    assert_eq!(get_arg_or(&a, "--token", "secret"), "secret");
    assert!(str_equal("abc", "abc"));
    assert!(!str_equal("abc", "abd"));
    assert!(!str_equal("abc", "ab"));
}

#[test]
fn server_options_defaults_and_overrides() {
    let o = embedded_server_options(&args(&["prog"]));
    assert_eq!((o.bind.as_str(), o.http_bind.as_str(), o.token.as_str()), ("0.0.0.0:7835", "0.0.0.0:8080", "secret"));
    let o = embedded_server_options(&args(&["prog", "--bind", "0.0.0.0:9000", "--http-bind", "0.0.0.0:9001", "--token", "t"]));
    assert_eq!((o.bind.as_str(), o.http_bind.as_str(), o.token.as_str()), ("0.0.0.0:9000", "0.0.0.0:9001", "t"));
}

#[test]
fn client_options_defaults_and_overrides() {
    let o = embedded_client_options(&args(&["prog"]));
    assert_eq!(o.server_addr, "localhost:7835");
    assert_eq!(o.token, "secret");
    assert_eq!(o.local_addr, "127.0.0.1:8000");
    assert_eq!(o.tunnel_id, None);
    let o = embedded_client_options(&args(&["prog", "--tunnel-id", "web", "--local-addr", "127.0.0.1:3000"]));
    assert_eq!(o.tunnel_id, Some("web".to_string()));
    assert_eq!(o.local_addr, "127.0.0.1:3000");
}

#[test]
fn local_dev_options_defaults() {
    let o = local_dev_options(&args(&["prog"]));
    assert_eq!(o.server_addr, "localhost:7835");
    assert_eq!(o.local_addr, "127.0.0.1:3000");
    assert_eq!(o.token, "dev-tunnel");
    let o = local_dev_options(&args(&["prog", "--local", "127.0.0.1:8000", "--server", "tunnel.example.com:7835"]));
    assert_eq!(o.local_addr, "127.0.0.1:8000");
    assert_eq!(o.server_addr, "tunnel.example.com:7835");
}

#[test]
fn example_modes() {
    assert_eq!(tls_example_mode(&args(&["prog", "--mode", "server"])), Some(RunMode::Server));
    assert_eq!(tls_example_mode(&args(&["prog", "--mode", "client"])), Some(RunMode::Client));
    assert_eq!(tls_example_mode(&args(&["prog"])), None);
    assert_eq!(tls_example_mode(&args(&["prog", "--mode", "Server"])), None);
    assert_eq!(pooling_example_mode(&args(&["prog"])), Some(RunMode::Client));
    assert_eq!(pooling_example_mode(&args(&["prog", "server"])), Some(RunMode::Server));
    assert_eq!(pooling_example_mode(&args(&["prog", "client"])), Some(RunMode::Client));
    assert_eq!(pooling_example_mode(&args(&["prog", "other"])), None);
}

#[test]
fn echo_decisions() {
    assert_eq!(echo_step(EchoEvent::Received(FrameKind::Text)), EchoStep::Echo);
    assert_eq!(echo_step(EchoEvent::Received(FrameKind::Binary)), EchoStep::Echo);
    assert_eq!(echo_step(EchoEvent::Received(FrameKind::Ping)), EchoStep::Skip);
    assert_eq!(echo_step(EchoEvent::Received(FrameKind::Pong)), EchoStep::Skip);
    assert_eq!(echo_step(EchoEvent::Received(FrameKind::Frame)), EchoStep::Skip);
    assert_eq!(echo_step(EchoEvent::Received(FrameKind::Close)), EchoStep::Stop);
    assert_eq!(echo_step(EchoEvent::ReadError), EchoStep::Stop);
    assert_eq!(echo_step(EchoEvent::StreamEnd), EchoStep::Stop);
}

#[test]
fn tls_settings() {
    let s = server_tls_settings();
    assert!(s.enabled && !s.client_auth);
    assert_eq!(s.cert_path.as_deref(), Some("server.crt"));
    assert_eq!(s.key_path.as_deref(), Some("server.key"));
    assert_eq!(s.ca_cert_path.as_deref(), Some("ca.crt"));
    assert_eq!(s.server_name, None);
    assert_eq!(required_file(&s, true).map(String::as_str), Some("server.crt"));
    let c = client_tls_settings();
    assert!(c.enabled && !c.client_auth);
    assert_eq!(c.cert_path, None);
    assert_eq!(c.key_path, None);
    assert_eq!(c.ca_cert_path.as_deref(), Some("ca.crt"));
    assert_eq!(c.server_name.as_deref(), Some("localhost"));
    assert_eq!(required_file(&c, false).map(String::as_str), Some("ca.crt"));
}

#[test]
fn decimal_text_of_numbers() {
    assert_eq!(decimal_text(0), "0");
    assert_eq!(decimal_text(7), "7");
    assert_eq!(decimal_text(10), "10");
    assert_eq!(decimal_text(90210), "90210");
    assert_eq!(decimal_text(u64::MAX), u64::MAX.to_string());
}

#[test]
fn get_arg_ignores_flag_free_prefix_and_later_arguments() {
    let a = args(&["--token", "t1", "--bind", "b"]);
    let mut prefixed = args(&["prog", "x", "--other"]);
    prefixed.extend(a.iter().cloned());
    assert_eq!(get_arg(&prefixed, "--token"), get_arg(&a, "--token"));
    let mut extended = a.clone();
    extended.extend(args(&["--token", "t2"]));
    assert_eq!(get_arg(&extended, "--token"), Some("t1".to_string()));
}

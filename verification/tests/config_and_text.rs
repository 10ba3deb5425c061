use rust_core::config::{AppConfig, EnvVars};
use rust_core::text::{bytes_le_exec, decimal_string, is_blank_str, parse_unsigned_bounded};

fn no_vars() -> EnvVars {
    EnvVars {
        rust_core_host: None,
        rust_core_port: None,
        models_dir: None,
        llama_server_bin: None,
        llama_host: None,
        llama_port: None,
        llama_ctx_size: None,
        llama_threads: None,
        llama_n_gpu_layers: None,
        upstream_timeout_secs: None,
    }
}

#[test]
fn config_defaults_when_unset() {
    let c = AppConfig::from_env_vars(no_vars());
    assert_eq!(c.bind_host, "0.0.0.0");
    assert_eq!(c.bind_port, 8081);
    assert_eq!(c.models_dir, "/models");
    assert_eq!(c.llama_server_bin, "/usr/local/bin/llama-server");
    assert_eq!(c.llama_host, "127.0.0.1");
    assert_eq!(c.llama_port, 8091);
    assert_eq!(c.default_ctx_size, 4096);
    assert_eq!(c.default_threads, 8);
    assert_eq!(c.default_n_gpu_layers, "0");
    assert_eq!(c.upstream_timeout_secs, 180);
}

#[test]
fn config_takes_set_values() {
    let mut v = no_vars();
    v.rust_core_host = Some("127.0.0.2".to_string());
    v.rust_core_port = Some("9000".to_string());
    v.models_dir = Some("/data/models".to_string());
    v.llama_port = Some("+7000".to_string());
    v.llama_ctx_size = Some("8192".to_string());
    v.llama_threads = Some("16".to_string());
    v.llama_n_gpu_layers = Some("999".to_string());
    v.upstream_timeout_secs = Some("30".to_string());
    let c = AppConfig::from_env_vars(v);
    assert_eq!(c.bind_host, "127.0.0.2");
    assert_eq!(c.bind_port, 9000);
    assert_eq!(c.models_dir, "/data/models");
    assert_eq!(c.llama_port, 7000);
    assert_eq!(c.default_ctx_size, 8192);
    assert_eq!(c.default_threads, 16);
    assert_eq!(c.default_n_gpu_layers, "999");
    assert_eq!(c.upstream_timeout_secs, 30);
}

#[test]
fn config_falls_back_on_unparsable_numbers() {
    let mut v = no_vars();
    v.rust_core_port = Some("65536".to_string());
    v.llama_port = Some(" 80".to_string());
    v.llama_ctx_size = Some("-1".to_string());
    v.llama_threads = Some("".to_string());
    v.upstream_timeout_secs = Some("abc".to_string());
    let c = AppConfig::from_env_vars(v);
    assert_eq!(c.bind_port, 8081);
    assert_eq!(c.llama_port, 8091);
    assert_eq!(c.default_ctx_size, 4096);
    assert_eq!(c.default_threads, 8);
    assert_eq!(c.upstream_timeout_secs, 180);
}

#[test]
fn addresses_of_default_config() {
    let c = AppConfig::from_env_vars(no_vars());
    assert_eq!(c.llama_base_url(), "http://127.0.0.1:8091");
    assert_eq!(c.bind_addr(), "0.0.0.0:8081");
    assert_eq!(c.llama_health_url(), "http://127.0.0.1:8091/health");
    assert_eq!(c.chat_completions_url(), "http://127.0.0.1:8091/v1/chat/completions");
}

#[test]
fn parse_matches_std_parse() {
    let cases = [
        "0", "7", "+7", "-7", "+", "", " 1", "1 ", "007", "65535", "65536", "4294967295",
        "4294967296", "18446744073709551615", "18446744073709551616", "1_0", "١",
    ];
    for s in cases {
        assert_eq!(parse_unsigned_bounded(s, u16::MAX as u64), s.parse::<u16>().ok().map(|v| v as u64), "u16 {:?}", s);
        assert_eq!(parse_unsigned_bounded(s, u32::MAX as u64), s.parse::<u32>().ok().map(|v| v as u64), "u32 {:?}", s);
        assert_eq!(parse_unsigned_bounded(s, u64::MAX), s.parse::<u64>().ok(), "u64 {:?}", s);
    }
}

#[test]
fn decimal_matches_to_string() {
    for n in [0u64, 1, 9, 10, 99, 100, 8091, 65535, u32::MAX as u64, u64::MAX] {
        assert_eq!(decimal_string(n), n.to_string());
    }
}

#[test]
fn blank_matches_trim() {
    let cases = ["", " ", "\t\n\r", "\u{a0}\u{3000}", "a", " a ", "\u{200b}", "\u{85}"];
    for s in cases {
        assert_eq!(is_blank_str(s), s.trim().is_empty(), "{:?}", s);
    }
}

#[test]
fn byte_order_matches_string_order() {
    let words = ["", "a", "b", "ab", "aa", "Z", "é", "z", "a.gguf", "A.gguf"];
    for a in words {
        for b in words {
            assert_eq!(bytes_le_exec(a.as_bytes(), b.as_bytes()), a <= b, "{:?} {:?}", a, b);
        }
    }
}

#[test]
fn whitespace_matches_char_is_whitespace() {
    for u in 0u32..=0x10FFFF {
        if let Some(c) = char::from_u32(u) {
            let s = c.to_string();
            assert_eq!(is_blank_str(&s), c.is_whitespace(), "U+{:04X}", u);
        }
    }
}

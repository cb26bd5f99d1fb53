use chat_index::accounts::{make_key, norm_hs};
use chat_index::collections::normalized_localpart;
use chat_index::deploy::{clean_server_ip, create_synapse_install_script, DeploymentConfig};
use chat_index::text::{contains_str, lower_string};

fn config(server_ip: &str, domain: Option<&str>) -> DeploymentConfig {
    DeploymentConfig {
        server_ip: server_ip.to_string(),
        ssh_user: "root".to_string(),
        ssh_password: "pw".to_string(),
        domain: domain.map(|d| d.to_string()),
        admin_username: "admin".to_string(),
        admin_password: "secret".to_string(),
    }
}

#[test]
fn norm_hs_trims_and_drops_trailing_slashes() {
    assert_eq!(norm_hs("https://example.org/"), "https://example.org");
    assert_eq!(norm_hs("  https://example.org///  "), "https://example.org");
    assert_eq!(norm_hs("https://example.org"), "https://example.org");
}

#[test]
fn make_key_joins_normalized_host_and_user() {
    assert_eq!(
        make_key("https://example.org/", "@alice:example.org"),
        "https://example.org/@alice:example.org"
    );
}

#[test]
fn normalized_localpart_strips_sigil_and_domain() {
    assert_eq!(normalized_localpart("@Alice:example.org"), "alice");
    assert_eq!(normalized_localpart("bob:server"), "bob");
    assert_eq!(normalized_localpart("@@carol:x"), "carol");
    assert_eq!(normalized_localpart("@:example.org"), "");
    assert_eq!(normalized_localpart("DAVE"), "dave");
}

#[test]
fn lower_string_folds_ascii_only() {
    assert_eq!(lower_string("MiXeD 123 ÄØ"), "mixed 123 ÄØ");
}

#[test]
fn contains_str_finds_substrings() {
    assert!(contains_str("hello world", "lo wo"));
    assert!(!contains_str("hello world", "worlds"));
    assert!(contains_str("anything", ""));
}

#[test]
fn clean_server_ip_strips_scheme_and_port() {
    assert_eq!(clean_server_ip(&config(" https://1.2.3.4:8022 ", None)), "1.2.3.4");
    assert_eq!(clean_server_ip(&config("http://host.example", None)), "host.example");
    assert_eq!(clean_server_ip(&config("10.0.0.1", None)), "10.0.0.1");
}

#[test]
fn install_script_uses_domain_when_configured() {
    let script = create_synapse_install_script(&config("1.2.3.4", Some("chat.example.org")));
    assert!(script.starts_with("#!/bin/bash"));
    assert!(script.contains("server-name string chat.example.org"));
    assert!(script.contains("server_name: \"chat.example.org\""));
    assert!(script.contains("-u admin -p secret"));
    assert!(script.contains("certbot --nginx -d chat.example.org"));
}

#[test]
fn install_script_falls_back_to_server_ip() {
    let script = create_synapse_install_script(&config("1.2.3.4", None));
    assert!(script.contains("echo \"Server: 1.2.3.4\""));
    assert!(script.contains("Homeserver URL: http://1.2.3.4:8008"));
}

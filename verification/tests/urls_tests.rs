use ic_asset::builders::{
    cargo_build_arguments, cargo_build_line, get_dependencies, get_first_canister_with_name,
};
use ic_asset::urls::{candid_url, frontend_url_change, CandidUrl};

#[test]
fn frontend_is_a_subdomain_of_a_provider_with_a_domain() {
    let change = frontend_url_change("ryjl3-tyaaa-aaaaa-aaaba-cai", Some("localhost"));
    assert_eq!(
        change.host.as_deref(),
        Some("ryjl3-tyaaa-aaaaa-aaaba-cai.localhost")
    );
    assert_eq!(change.query, None);
}

#[test]
fn frontend_is_a_query_of_a_provider_without_a_domain() {
    let change = frontend_url_change("ryjl3-tyaaa-aaaaa-aaaba-cai", None);
    assert_eq!(change.host, None);
    assert_eq!(
        change.query.as_deref(),
        Some("canisterId=ryjl3-tyaaa-aaaaa-aaaba-cai")
    );
}

#[test]
fn assets_canister_shows_no_candid_interface() {
    assert!(candid_url("assets", "aaaaa-aa", true, Some("ui"), Some("localhost")).is_none());
    assert!(candid_url("assets", "aaaaa-aa", false, Some("ui"), None).is_none());
}

#[test]
fn candid_interface_on_the_main_network() {
    match candid_url("rust", "ryjl3-tyaaa-aaaaa-aaaba-cai", true, None, None) {
        Some(CandidUrl::Whole(url)) => assert_eq!(
            url,
            "https://a4gq6-oaaaa-aaaab-qaa4q-cai.raw.ic0.app/?id=ryjl3-tyaaa-aaaaa-aaaba-cai"
        ),
        _ => panic!("the main network shows the interface at a whole URL"),
    }
}

#[test]
fn candid_interface_at_the_interface_canister_of_the_network() {
    match candid_url("motoko", "abc", false, Some("ui-id"), Some("localhost")) {
        Some(CandidUrl::Changed(change)) => {
            assert_eq!(change.host.as_deref(), Some("ui-id.localhost"));
            assert_eq!(change.query.as_deref(), Some("id=abc"));
        }
        _ => panic!("a network with an interface canister shows the interface there"),
    }
    match candid_url("motoko", "abc", false, Some("ui-id"), None) {
        Some(CandidUrl::Changed(change)) => {
            assert_eq!(change.host, None);
            assert_eq!(change.query.as_deref(), Some("canisterId=ui-id&id=abc"));
        }
        _ => panic!("a network with an interface canister shows the interface there"),
    }
}

#[test]
fn no_candid_interface_without_an_interface_canister() {
    assert!(candid_url("motoko", "abc", false, None, Some("localhost")).is_none());
    assert!(candid_url("custom", "abc", false, None, None).is_none());
}

fn pool() -> Vec<(String, u32)> {
    vec![
        ("backend".to_string(), 1),
        ("frontend".to_string(), 2),
        ("backend".to_string(), 3),
    ]
}

#[test]
fn first_canister_with_a_name_is_found() {
    assert_eq!(get_first_canister_with_name(&pool(), "backend"), Some(1));
    assert_eq!(get_first_canister_with_name(&pool(), "frontend"), Some(2));
    assert_eq!(get_first_canister_with_name(&pool(), "ledger"), None);
    assert_eq!(get_first_canister_with_name(&Vec::<(String, u32)>::new(), "backend"), None);
}

#[test]
fn dependencies_are_looked_up_in_the_order_of_their_names() {
    let names = vec!["frontend".to_string(), "backend".to_string()];
    assert_eq!(get_dependencies(&pool(), &names), Ok(vec![2, 1]));
    assert_eq!(get_dependencies(&pool(), &Vec::new()), Ok(Vec::new()));
}

#[test]
fn first_unknown_dependency_fails_the_lookup() {
    let names = vec![
        "frontend".to_string(),
        "ledger".to_string(),
        "backend".to_string(),
        "wallet".to_string(),
    ];
    assert_eq!(get_dependencies(&pool(), &names), Err("ledger".to_string()));
}

#[test]
fn cargo_builds_the_package_for_the_canister_target() {
    assert_eq!(
        cargo_build_arguments("hello"),
        vec![
            "build",
            "--target",
            "wasm32-unknown-unknown",
            "--release",
            "-p",
            "hello",
            "--locked"
        ]
    );
    assert_eq!(
        cargo_build_line("hello"),
        "Executing: cargo build --target wasm32-unknown-unknown --release -p hello --locked"
    );
}

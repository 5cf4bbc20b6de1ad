use ic_asset::deploy::{parse_install_mode, DeployOpts, DeployOptsError, InstallMode};

fn opts(canister_name: Option<&str>, mode: Option<&str>, no_wallet: bool) -> DeployOpts {
    DeployOpts {
        canister_name: canister_name.map(str::to_string),
        argument: None,
        argument_type: None,
        mode: mode.map(str::to_string),
        upgrade_unchanged: false,
        network: None,
        with_cycles: None,
        wallet: None,
        no_wallet,
    }
}

#[test]
fn modes_are_read_from_their_names() {
    assert_eq!(parse_install_mode("install"), Some(InstallMode::Install));
    assert_eq!(parse_install_mode("reinstall"), Some(InstallMode::Reinstall));
    assert_eq!(parse_install_mode("upgrade"), Some(InstallMode::Upgrade));
    assert_eq!(parse_install_mode("Reinstall"), None);
    assert_eq!(parse_install_mode(""), None);
    assert_eq!(parse_install_mode("reinstall "), None);
}

#[test]
fn no_mode_forces_nothing() {
    assert_eq!(opts(None, None, false).force_reinstall(), Ok(false));
    assert_eq!(opts(Some("frontend"), None, false).force_reinstall(), Ok(false));
}

#[test]
fn reinstall_of_a_named_canister_is_forced() {
    assert_eq!(
        opts(Some("frontend"), Some("reinstall"), false).force_reinstall(),
        Ok(true)
    );
}

#[test]
fn reinstall_without_a_canister_is_refused() {
    assert_eq!(
        opts(None, Some("reinstall"), false).force_reinstall(),
        Err(DeployOptsError::ReinstallWithoutCanister)
    );
}

#[test]
fn other_modes_cannot_be_forced() {
    assert_eq!(
        opts(Some("frontend"), Some("upgrade"), false).force_reinstall(),
        Err(DeployOptsError::ModeCannotBeForced)
    );
    assert_eq!(
        opts(None, Some("install"), false).force_reinstall(),
        Err(DeployOptsError::ModeCannotBeForced)
    );
}

#[test]
fn unknown_mode_is_refused() {
    assert_eq!(
        opts(Some("frontend"), Some("wipe"), false).force_reinstall(),
        Err(DeployOptsError::UnknownMode)
    );
}

#[test]
fn canisters_are_created_through_the_wallet_unless_told_otherwise() {
    assert!(opts(None, None, false).creates_through_wallet(false));
    assert!(!opts(None, None, false).creates_through_wallet(true));
    assert!(!opts(None, None, true).creates_through_wallet(false));
    assert!(!opts(None, None, true).creates_through_wallet(true));
}

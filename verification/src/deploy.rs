//! The options of a deployment and what follows from them before anything
//! is deployed.

use crate::text::str_equal;
use vstd::prelude::*;

verus! {

/// The options of a deployment of all canisters of a project, or of one.
pub struct DeployOpts {
    /// The name of the canister to deploy. Without a name, all canisters of
    /// the project are deployed.
    pub canister_name: Option<String>,
    /// The argument to pass to the method.
    pub argument: Option<String>,
    /// The data type of the argument.
    pub argument_type: Option<String>,
    /// The mode of installation that is forced, if one is.
    pub mode: Option<String>,
    /// Whether to upgrade also where the module did not change.
    pub upgrade_unchanged: bool,
    /// The network to deploy to, in place of the local one.
    pub network: Option<String>,
    /// The initial cycle balance of a newly created canister.
    pub with_cycles: Option<String>,
    /// The wallet canister to perform the call with.
    pub wallet: Option<String>,
    /// Whether to create canisters as the user, without a wallet.
    pub no_wallet: bool,
}

/// How code is put into a canister.
#[derive(Clone, Copy, Debug, PartialEq, Eq, Structural)]
pub enum InstallMode {
    /// Into an empty canister.
    Install,
    /// Over what is there, erasing the data of the canister.
    Reinstall,
    /// Over what is there, keeping the data.
    Upgrade,
}

/// The mode of installation that `text` names, if it names one.
pub open spec fn spec_install_mode(text: Seq<char>) -> Option<InstallMode> {
    if text == "install"@ {
        Some(InstallMode::Install)
    } else if text == "reinstall"@ {
        Some(InstallMode::Reinstall)
    } else if text == "upgrade"@ {
        Some(InstallMode::Upgrade)
    } else {
        None
    }
}

/// Reads a mode of installation from its name.
pub fn parse_install_mode(text: &str) -> (mode: Option<InstallMode>)
    ensures
        mode == spec_install_mode(text@),
{
    if str_equal(text, "install") {
        Some(InstallMode::Install)
    } else if str_equal(text, "reinstall") {
        Some(InstallMode::Reinstall)
    } else if str_equal(text, "upgrade") {
        Some(InstallMode::Upgrade)
    } else {
        None
    }
}

/// Why the options of a deployment cannot be followed.
#[derive(Clone, Copy, Debug, PartialEq, Eq, Structural)]
pub enum DeployOptsError {
    /// The mode is not the name of a mode of installation.
    UnknownMode,
    /// The mode is one that cannot be forced: only reinstallation can.
    ModeCannotBeForced,
    /// Reinstallation is asked for without the name of a canister. It
    /// destroys all data in a canister, so it is valid only for a single
    /// one.
    ReinstallWithoutCanister,
}

/// Whether the options force a reinstallation, or why they cannot be
/// followed.
pub open spec fn spec_force_reinstall(mode: Option<Seq<char>>, has_canister_name: bool) -> Result<
    bool,
    DeployOptsError,
> {
    match mode {
        None => Ok(false),
        Some(text) => match spec_install_mode(text) {
            None => Err(DeployOptsError::UnknownMode),
            Some(InstallMode::Reinstall) => if has_canister_name {
                Ok(true)
            } else {
                Err(DeployOptsError::ReinstallWithoutCanister)
            },
            Some(_) => Err(DeployOptsError::ModeCannotBeForced),
        },
    }
}

/// Whether canisters are created through the wallet of the selected
/// identity: unless the user asked for no wallet, or calls go through a
/// wallet anyway.
pub open spec fn spec_creates_through_wallet(no_wallet: bool, sender_is_wallet: bool) -> bool {
    !no_wallet && !sender_is_wallet
}

impl DeployOpts {
    /// Decides whether the deployment reinstalls: not without a mode, and
    /// with the mode `reinstall` only where a single canister is named.
    pub fn force_reinstall(&self) -> (decision: Result<bool, DeployOptsError>)
        ensures
            decision == spec_force_reinstall(
                match self.mode {
                    Some(text) => Some(text@),
                    None => None,
                },
                self.canister_name is Some,
            ),
    {
        match &self.mode {
            None => Ok(false),
            Some(text) => match parse_install_mode(text.as_str()) {
                None => Err(DeployOptsError::UnknownMode),
                Some(InstallMode::Reinstall) => {
                    if self.canister_name.is_some() {
                        Ok(true)
                    } else {
                        Err(DeployOptsError::ReinstallWithoutCanister)
                    }
                },
                Some(_) => Err(DeployOptsError::ModeCannotBeForced),
            },
        }
    }

    /// Decides whether canisters are created through the wallet of the
    /// selected identity, given whether calls go through a wallet already.
    pub fn creates_through_wallet(&self, sender_is_wallet: bool) -> (through_wallet: bool)
        ensures
            through_wallet == spec_creates_through_wallet(self.no_wallet, sender_is_wallet),
    {
        !self.no_wallet && !sender_is_wallet
    }
}

} // verus!

//! Host-owned preferences stored in the root Nanika configuration.

use vstd::prelude::*;
use vstd::string::*;

use crate::host_diagnostic::opt_view;
use crate::text::{decimal, decimal_string};

verus! {

/// The only host settings format this host reads and writes.
pub const HOST_CONFIG_FORMAT_VERSION: u32 = 1;

/// `None` when `global_hotkey::hotkey::HotKey::from_str` accepts `text`;
/// otherwise the description of its error.
pub uninterp spec fn hotkey_parse_error(text: Seq<char>) -> Option<Seq<char>>;

/// `global_hotkey::hotkey::HotKey::from_str` on `text`: `None` when it
/// succeeds, the error's description otherwise. The grammar is named, not stated.
#[verifier::external_body]
fn hotkey_error(text: &str) -> (error: Option<String>)
    ensures
        opt_view(error) == hotkey_parse_error(text@),
{
    match <global_hotkey::hotkey::HotKey as std::str::FromStr>::from_str(text) {
        Ok(_) => None,
        Err(e) => Some(e.to_string()),
    }
}

/// Host-owned preferences stored in the root Nanika configuration.
#[derive(Debug, Clone)]
pub struct HostConfig {
    pub format_version: u32,
    pub hotkey: String,
    pub reduced_motion: bool,
}

/// The outcome of validating host settings.
pub open spec fn host_config_validation(format_version: u32, hotkey: Seq<char>) -> Result<
    (),
    Seq<char>,
> {
    if format_version != HOST_CONFIG_FORMAT_VERSION {
        Err("unsupported host settings format "@ + decimal(format_version as nat))
    } else if hotkey_parse_error(hotkey) is Some {
        Err("invalid global hotkey: "@ + hotkey_parse_error(hotkey)->0)
    } else {
        Ok(())
    }
}

impl HostConfig {
    /// Accepts settings only in the current format and with a hotkey that parses.
    pub fn validate(&self) -> (result: Result<(), String>)
        ensures
            match result {
                Ok(()) => host_config_validation(self.format_version, self.hotkey@) == Ok::<
                    (),
                    Seq<char>,
                >(()),
                Err(message) => host_config_validation(self.format_version, self.hotkey@)
                    == Err::<(), Seq<char>>(message@),
            },
    {
        if self.format_version != HOST_CONFIG_FORMAT_VERSION {
            let prefix = String::from_str("unsupported host settings format ");
            return Err(prefix.concat(decimal_string(self.format_version as u64).as_str()));
        }
        match hotkey_error(self.hotkey.as_str()) {
            Some(message) => Err(String::from_str("invalid global hotkey: ").concat(message.as_str())),
            None => Ok(()),
        }
    }
}

impl Default for HostConfig {
    fn default() -> (config: Self)
        ensures
            config.format_version == HOST_CONFIG_FORMAT_VERSION,
            config.hotkey@ == "Ctrl+Space"@,
            !config.reduced_motion,
    {
        HostConfig {
            format_version: HOST_CONFIG_FORMAT_VERSION,
            hotkey: String::from_str("Ctrl+Space"),
            reduced_motion: false,
        }
    }
}

} // verus!

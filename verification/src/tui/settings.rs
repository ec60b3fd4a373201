//! Where the client finds its server: the configuration directory, and how
//! command-line arguments and the saved configuration combine.
use vstd::prelude::*;
use vstd::string::StringExecFns;
use crate::text::{chars_of, push_str_chars, string_from_chars};

verus! {

/// Default server port
pub const DEFAULT_SERVER_PORT: u16 = 6969;

/// The server the client connects to.
#[derive(Debug, Clone)]
pub struct ServerTarget {
    pub address: String,
    pub port: u16,
}

/// Why the client does not know its server.
#[derive(Debug, Clone, Copy, PartialEq, Eq, Structural)]
pub enum StartupError {
    /// A port was given but no address, and no configuration was saved.
    NoAddress,
    /// No argument was given and no configuration was saved.
    NoConfig,
    /// None of `XDG_CONFIG`, `XDG_CONFIG_HOME` and `HOME` is set to a
    /// non-empty value.
    NoConfigDir,
}

/// The value of an environment variable, when it is set and not empty.
pub open spec fn non_empty(v: Option<String>) -> Option<Seq<char>> {
    match v {
        Some(s) => if s@.len() > 0 {
            Some(s@)
        } else {
            None
        },
        None => None,
    }
}

/// The directory of the configuration file: `XDG_CONFIG`, else
/// `XDG_CONFIG_HOME`, else `$HOME/.config`, taking only non-empty values.
pub open spec fn spec_config_dir(
    xdg_config: Option<String>,
    xdg_config_home: Option<String>,
    home: Option<String>,
) -> Option<Seq<char>> {
    if non_empty(xdg_config) is Some {
        non_empty(xdg_config)
    } else if non_empty(xdg_config_home) is Some {
        non_empty(xdg_config_home)
    } else {
        match non_empty(home) {
            Some(h) => Some(h + "/.config"@),
            None => None,
        }
    }
}

/// The directory of the configuration file, from the values of `XDG_CONFIG`,
/// `XDG_CONFIG_HOME` and `HOME`.
pub fn config_dir(
    xdg_config: Option<String>,
    xdg_config_home: Option<String>,
    home: Option<String>,
) -> (r: Result<String, StartupError>)
    ensures
        match spec_config_dir(xdg_config, xdg_config_home, home) {
            Some(d) => r matches Ok(s) && s@ == d,
            None => r == Err::<String, StartupError>(StartupError::NoConfigDir),
        },
{
    if let Some(v) = xdg_config {
        if !v.as_str().is_empty() {
            return Ok(v);
        }
    }
    if let Some(v) = xdg_config_home {
        if !v.as_str().is_empty() {
            return Ok(v);
        }
    }
    if let Some(h) = home {
        if !h.as_str().is_empty() {
            return Ok(h.concat("/.config"));
        }
    }
    Err(StartupError::NoConfigDir)
}

/// `name` joined to the directory `dir` as `PathBuf::join` joins it: with a
/// `/` between them unless `dir` already ends in one.
pub open spec fn joined(dir: Seq<char>, name: Seq<char>) -> Seq<char> {
    if dir.len() > 0 && dir.last() == '/' {
        dir + name
    } else {
        dir + seq!['/'] + name
    }
}

/// The path of the configuration file, `chat-cafe.yml` in the directory of
/// `config_dir`.
pub fn config_file_path(
    xdg_config: Option<String>,
    xdg_config_home: Option<String>,
    home: Option<String>,
) -> (r: Result<String, StartupError>)
    ensures
        match spec_config_dir(xdg_config, xdg_config_home, home) {
            Some(d) => r matches Ok(p) && p@ == joined(d, "chat-cafe.yml"@),
            None => r == Err::<String, StartupError>(StartupError::NoConfigDir),
        },
{
    match config_dir(xdg_config, xdg_config_home, home) {
        Ok(dir) => {
            let mut v = chars_of(dir.as_str());
            if v.len() == 0 || v[v.len() - 1] != '/' {
                v.push('/');
            }
            push_str_chars(&mut v, "chat-cafe.yml");
            Ok(string_from_chars(v.as_slice()))
        },
        Err(e) => Err(e),
    }
}

/// The server to connect to, and whether to save it as the configuration.
///
/// With an address or a port on the command line, each one missing is taken
/// from the saved configuration (the port defaults to `DEFAULT_SERVER_PORT`,
/// the address is required) and the result is saved. Without arguments the
/// saved configuration is used as it is.
pub fn resolve_target(
    arg_address: Option<String>,
    arg_port: Option<u16>,
    saved: Option<ServerTarget>,
) -> (r: Result<(ServerTarget, bool), StartupError>)
    ensures
        arg_address is Some || arg_port is Some ==> match r {
            Ok((t, save)) => {
                &&& save
                &&& t.address == match arg_address {
                    Some(a) => a,
                    None => saved->Some_0.address,
                }
                &&& t.port == match arg_port {
                    Some(p) => p,
                    None => match saved {
                        Some(s) => s.port,
                        None => DEFAULT_SERVER_PORT,
                    },
                }
                &&& arg_address is None ==> saved is Some
            },
            Err(e) => e == StartupError::NoAddress && arg_address is None && saved is None,
        },
        arg_address is None && arg_port is None ==> match saved {
            Some(s) => r matches Ok((t, save)) && t == s && !save,
            None => r == Err::<(ServerTarget, bool), StartupError>(StartupError::NoConfig),
        },
{
    if arg_address.is_some() || arg_port.is_some() {
        let address = match arg_address {
            Some(a) => a,
            None => match &saved {
                Some(s) => s.address.clone(),
                None => {
                    return Err(StartupError::NoAddress);
                },
            },
        };
        let port = match arg_port {
            Some(p) => p,
            None => match &saved {
                Some(s) => s.port,
                None => DEFAULT_SERVER_PORT,
            },
        };
        Ok((ServerTarget { address, port }, true))
    } else {
        match saved {
            Some(s) => Ok((s, false)),
            None => Err(StartupError::NoConfig),
        }
    }
}

} // verus!

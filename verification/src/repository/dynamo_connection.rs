//! Where the store is: a fixed local endpoint for development, or the
//! managed service, by one configuration flag.

use vstd::prelude::*;

verus! {

/// How to reach the store.
#[derive(Debug)]
pub enum Config {
    /// A store on this machine, reached with fixed placeholder credentials.
    Local {
        endpoint_url: String,
        access_key_id: String,
        secret_access_key: String,
        session_token: String,
        region: String,
    },
    /// The managed store, reached with whatever credentials and region the
    /// surroundings provide; the region given here is used where they
    /// provide none.
    Remote { fallback_region: String },
}

/// A way to reach the store, as a mathematical value.
pub enum ConfigView {
    Local {
        endpoint_url: Seq<char>,
        access_key_id: Seq<char>,
        secret_access_key: Seq<char>,
        session_token: Seq<char>,
        region: Seq<char>,
    },
    Remote { fallback_region: Seq<char> },
}

impl View for Config {
    type V = ConfigView;

    open spec fn view(&self) -> ConfigView {
        match self {
            Config::Local {
                endpoint_url,
                access_key_id,
                secret_access_key,
                session_token,
                region,
            } => ConfigView::Local {
                endpoint_url: endpoint_url@,
                access_key_id: access_key_id@,
                secret_access_key: secret_access_key@,
                session_token: session_token@,
                region: region@,
            },
            Config::Remote { fallback_region } => ConfigView::Remote {
                fallback_region: fallback_region@,
            },
        }
    }
}

/// The way to the local store: its fixed endpoint, placeholder credentials
/// and region.
pub open spec fn local_config() -> ConfigView {
    ConfigView::Local {
        endpoint_url: "http://localhost:8000"@,
        access_key_id: "DEMO"@,
        secret_access_key: "DEMO"@,
        session_token: "DEMO"@,
        region: "eu-west-1"@,
    }
}

/// The way to the managed store.
pub open spec fn remote_config() -> ConfigView {
    ConfigView::Remote { fallback_region: "eu-west-1"@ }
}

/// The value that the flag has where the configuration does not set it.
pub open spec fn default_flag() -> Seq<char> {
    "local"@
}

/// The way to the store that the flag selects: the local one where the flag
/// reads `true`, the managed one for every other value and where the flag is
/// not set.
pub open spec fn config_for(flag: Option<Seq<char>>) -> ConfigView {
    let value = match flag {
        Some(value) => value,
        None => default_flag(),
    };
    if value == "true"@ {
        local_config()
    } else {
        remote_config()
    }
}

/// The name of the configuration flag that selects the store.
pub fn flag_name() -> (name: &'static str)
    ensures
        name@ == "local"@,
{
    "local"
}

/// The way to the local store.
pub fn create_local_db() -> (config: Config)
    ensures
        config@ == local_config(),
{
    Config::Local {
        endpoint_url: String::from_str("http://localhost:8000"),
        access_key_id: String::from_str("DEMO"),
        secret_access_key: String::from_str("DEMO"),
        session_token: String::from_str("DEMO"),
        region: String::from_str("eu-west-1"),
    }
}

/// The way to the managed store.
pub fn create_remote_db() -> (config: Config)
    ensures
        config@ == remote_config(),
{
    Config::Remote { fallback_region: String::from_str("eu-west-1") }
}

/// The way to the store for the value that the flag has; `None` where the
/// configuration does not set it.
pub fn create_db(flag: Option<String>) -> (config: Config)
    ensures
        config@ == config_for(
            match flag {
                Some(value) => Some(value@),
                None => None,
            },
        ),
{
    let value = match flag {
        Some(value) => value,
        None => String::from_str("local"),
    };
    if value == String::from_str("true") {
        create_local_db()
    } else {
        create_remote_db()
    }
}

} // verus!

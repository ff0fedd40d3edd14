use vstd::prelude::*;
use vstd::string::StringExecFns;

verus! {

/// The options of one node.
#[derive(Debug)]
pub struct ServiceConfig {
    /// Whether the node is part of a cluster: it then uses the directory
    /// and listens for its peers.
    pub cluster_mode: bool,
    pub websocket_port: String,
}

/// The options for each environment.
#[derive(Debug)]
pub struct GlobalConfig {
    pub test: ServiceConfig,
    pub prod: ServiceConfig,
}

/// The options of a node that was given none: on its own, on port 3999.
pub fn get_default_config() -> (config: ServiceConfig)
    ensures
        !config.cluster_mode,
        config.websocket_port@ == "3999"@,
{
    ServiceConfig { cluster_mode: false, websocket_port: String::from_str("3999") }
}

/// The options for the environment `env`: those for production where it is
/// `prod`, those for testing in any other case.
pub fn select_config(global: GlobalConfig, env: &String) -> (config: ServiceConfig)
    ensures
        config == (if env@ == "prod"@ {
            global.prod
        } else {
            global.test
        }),
{
    let prod = String::from_str("prod");
    if *env == prod {
        global.prod
    } else {
        global.test
    }
}

} // verus!

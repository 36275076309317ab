//! Command plumbing shared by every subcommand.
use vstd::prelude::*;

use crate::cli::Cli;
use crate::config::Config;

verus! {

/// The config given on the command line: with `--fe-host`, a config built
/// from the FE flags alone; otherwise none, and the config file is to be
/// loaded (from `--config` / `--profile` / the usual places).
pub fn resolve_config(cli: &Cli) -> (r: Option<Config>)
    ensures
        cli.fe_host is None ==> r is None,
        cli.fe_host matches Some(h) ==> (r matches Some(c) && c@.name == "default"@ && c@.fe.host
            == h@ && c@.fe.query_port == cli.fe_port && c@.fe.http_port == 8030
            && c@.fe.edit_log_port == 9010 && c@.fe.user == cli.user@ && c@.fe.password
            == cli.password@ && c@.be.heartbeat_port == 9050 && c@.be.http_port == 8040
            && c@.ssh is None && c@.deploy is None && c@.topology is None),
{
    match &cli.fe_host {
        Some(host) => Some(
            Config::from_fe(host.clone(), cli.fe_port, cli.user.clone(), cli.password.clone()),
        ),
        None => None,
    }
}

} // verus!

//! The configuration of the MCP servers the assistant launches.

use vstd::prelude::*;
use std::collections::HashMap;

verus! {

/// How the host talks to a server.
#[derive(PartialEq, Eq, Structural)]
pub enum McpTransport {
    /// Over the server's standard input and output.
    Stdio,
}

/// One server of the configuration file.
pub struct McpServerConfig {
    pub name: String,
    pub enabled: bool,
    pub transport: McpTransport,
    /// The program and its first arguments.
    pub command: Vec<String>,
    /// Further arguments, after `command`.
    pub args: Vec<String>,
    /// Variables set in the server's environment.
    pub env: HashMap<String, String>,
    /// Tools of the server that run without asking.
    pub auto_execute: Vec<String>,
}

/// The name of the file that lists the servers.
pub open spec fn mcp_config_file_name() -> Seq<char> {
    "mcp_servers.json"@
}

/// `Path::join` of a relative file name onto a directory: the name alone
/// under an empty directory, else the directory, a `/` unless it already
/// ends in one, and the name.
pub open spec fn join_path(dir: Seq<char>, name: Seq<char>) -> Seq<char> {
    if dir.len() == 0 {
        name
    } else if dir.last() == '/' {
        dir + name
    } else {
        dir + seq!['/'] + name
    }
}

/// The path of `name` in the directory `dir` (see [`join_path`]).
pub fn join_path_exec(dir: &str, name: &str) -> (r: String)
    ensures
        r@ == join_path(dir@, name@),
{
    let v = crate::text::chars_of(dir);
    let mut r = String::from_str(dir);
    if v.len() > 0 && v[v.len() - 1] != '/' {
        r.append("/");
        proof {
            reveal_strlit("/");
        }
    }
    r.append(name);
    proof {
        reveal_strlit("/");
    }
    assert(r@ =~= join_path(dir@, name@));
    r
}

/// The path of the server list, `gemini-suite/mcp_servers.json` under the
/// user's configuration base `base`, or an error when no base could be
/// determined.
pub fn get_mcp_config_path(base: Option<&str>) -> (r: Result<String, String>)
    ensures
        match base {
            Some(b) => r matches Ok(p) && p@ == join_path(join_path(b@, crate::config::config_dir_name()), mcp_config_file_name()),
            None => r matches Err(e) && e@ == "Could not determine config directory"@,
        },
{
    match crate::config::get_config_dir(base) {
        Ok(dir) => Ok(join_path_exec(dir.as_str(), "mcp_servers.json")),
        Err(e) => Err(e),
    }
}

/// The enabled servers of `servers`, in order.
pub fn enabled_servers(servers: Vec<McpServerConfig>) -> (r: Vec<McpServerConfig>)
    ensures
        r@ == servers@.filter(|s: McpServerConfig| s.enabled),
{
    let mut r: Vec<McpServerConfig> = Vec::new();
    let mut rest = servers;
    let ghost all = rest@;
    let mut i: usize = 0;
    proof {
        reveal(Seq::filter);
    }
    assert(all.take(0).filter(|s: McpServerConfig| s.enabled) =~= Seq::<McpServerConfig>::empty());
    assert(rest@ =~= all.skip(0));
    let total = rest.len();
    while rest.len() > 0
        invariant
            all.len() == total,
            i + rest@.len() == all.len(),
            rest@ =~= all.skip(i as int),
            r@ == all.take(i as int).filter(|s: McpServerConfig| s.enabled),
        decreases rest@.len(),
    {
        let s = rest.remove(0);
        assert(s == all[i as int]);
        let ghost pre = all.take(i as int);
        assert(all.take(i as int + 1) =~= pre.push(s));
        proof {
            pre.lemma_filter_push(s, |s: McpServerConfig| s.enabled);
        }
        if s.enabled {
            r.push(s);
        }
        i = i + 1;
        assert(rest@ =~= all.skip(i as int));
    }
    assert(all.take(all.len() as int) =~= all);
    r
}

} // verus!

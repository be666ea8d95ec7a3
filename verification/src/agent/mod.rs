//! Agent backends.

use vstd::prelude::*;

use crate::error::{ErrorV, GatewayError};
use crate::strs::{concat3, same};

pub mod cli;
pub mod codex_app_server;
pub mod echo;
pub mod http_sse;
pub mod laws;

verus! {

/// The kinds of agent backends.
#[derive(Debug, Clone, Copy, PartialEq, Eq, Structural)]
pub enum BackendKind {
    Echo,
    HttpSse,
    Cli,
    CliRouter,
    CodexAppServer,
}

/// The kind of backend that a name stands for.
pub open spec fn backend_named(name: Seq<char>) -> Option<BackendKind> {
    if name == "echo"@ {
        Some(BackendKind::Echo)
    } else if name == "http_sse"@ || name == "agentscope_compatible"@ || name == "agentscope"@ {
        Some(BackendKind::HttpSse)
    } else if name == "cli"@ {
        Some(BackendKind::Cli)
    } else if name == "cli_router"@ {
        Some(BackendKind::CliRouter)
    } else if name == "codex_app_server"@ {
        Some(BackendKind::CodexAppServer)
    } else {
        None
    }
}

/// The kind of backend that a name stands for.
pub fn backend_kind(name: &str) -> (r: Result<BackendKind, GatewayError>)
    ensures
        match r {
            Ok(k) => backend_named(name@) == Some(k),
            Err(e) => backend_named(name@) is None && e@ == ErrorV::Config(
                "unknown agent.backend '"@ + name@
                    + "'; use echo, http_sse, cli, cli_router, or codex_app_server"@,
            ),
        },
{
    if same(name, "echo") {
        Ok(BackendKind::Echo)
    } else if same(name, "http_sse") || same(name, "agentscope_compatible") || same(
        name,
        "agentscope",
    ) {
        Ok(BackendKind::HttpSse)
    } else if same(name, "cli") {
        Ok(BackendKind::Cli)
    } else if same(name, "cli_router") {
        Ok(BackendKind::CliRouter)
    } else if same(name, "codex_app_server") {
        Ok(BackendKind::CodexAppServer)
    } else {
        Err(
            GatewayError::Config(
                concat3(
                    "unknown agent.backend '",
                    name,
                    "'; use echo, http_sse, cli, cli_router, or codex_app_server",
                ),
            ),
        )
    }
}

/// Each backend goes by its own name, and no other name means one.
pub proof fn backends_go_by_their_names(name: Seq<char>)
    ensures
        backend_named("echo"@) == Some(BackendKind::Echo),
        backend_named("http_sse"@) == Some(BackendKind::HttpSse),
        backend_named("agentscope_compatible"@) == Some(BackendKind::HttpSse),
        backend_named("agentscope"@) == Some(BackendKind::HttpSse),
        backend_named("cli"@) == Some(BackendKind::Cli),
        backend_named("cli_router"@) == Some(BackendKind::CliRouter),
        backend_named("codex_app_server"@) == Some(BackendKind::CodexAppServer),
        backend_named(name) is Some ==> seq![
            "echo"@,
            "http_sse"@,
            "agentscope_compatible"@,
            "agentscope"@,
            "cli"@,
            "cli_router"@,
            "codex_app_server"@,
        ].contains(name),
{
    reveal_strlit("echo");
    reveal_strlit("http_sse");
    reveal_strlit("agentscope_compatible");
    reveal_strlit("agentscope");
    reveal_strlit("cli");
    reveal_strlit("cli_router");
    reveal_strlit("codex_app_server");
    assert("echo"@.len() != "http_sse"@.len());
    assert("echo"@.len() != "agentscope_compatible"@.len());
    assert("echo"@.len() != "agentscope"@.len());
    assert("echo"@.len() != "cli"@.len());
    assert("echo"@.len() != "cli_router"@.len());
    assert("echo"@.len() != "codex_app_server"@.len());
    assert("http_sse"@.len() != "agentscope_compatible"@.len());
    assert("http_sse"@.len() != "agentscope"@.len());
    assert("http_sse"@.len() != "cli"@.len());
    assert("http_sse"@.len() != "cli_router"@.len());
    assert("http_sse"@.len() != "codex_app_server"@.len());
    assert("agentscope_compatible"@.len() != "agentscope"@.len());
    assert("agentscope_compatible"@.len() != "cli"@.len());
    assert("agentscope_compatible"@.len() != "cli_router"@.len());
    assert("agentscope_compatible"@.len() != "codex_app_server"@.len());
    assert("agentscope"@.len() != "cli"@.len());
    assert("agentscope"@[0] != "cli_router"@[0]);
    assert("agentscope"@.len() != "codex_app_server"@.len());
    assert("cli"@.len() != "cli_router"@.len());
    assert("cli"@.len() != "codex_app_server"@.len());
    assert("cli_router"@.len() != "codex_app_server"@.len());
    let all = seq![
        "echo"@,
        "http_sse"@,
        "agentscope_compatible"@,
        "agentscope"@,
        "cli"@,
        "cli_router"@,
        "codex_app_server"@,
    ];
    assert(all[0] == "echo"@ && all[1] == "http_sse"@ && all[2] == "agentscope_compatible"@ && all[3]
        == "agentscope"@ && all[4] == "cli"@ && all[5] == "cli_router"@ && all[6]
        == "codex_app_server"@);
}

} // verus!

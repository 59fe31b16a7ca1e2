//! The command line: which mode to run in, and the help and version texts.
use vstd::prelude::*;

use crate::mcp::{server_version, version};
use crate::text::{owned, str_eq};

verus! {

/// What the program was asked to do.
#[derive(Debug, Clone, Copy, PartialEq, Eq, Structural)]
pub enum Command {
    /// Serve MCP over standard input and output.
    Stdio,
    /// Serve MCP over HTTP.
    Http,
    /// Print the version.
    Version,
    /// Print the help.
    Help,
}

/// The command a list of arguments (without the program name) asks for, or
/// the message that refuses it.
pub open spec fn command_of(args: Seq<Seq<char>>) -> Result<Command, Seq<char>> {
    if args.len() == 0 {
        Ok(Command::Stdio)
    } else if args.len() == 1 {
        let a = args[0];
        if a == "--stdio"@ {
            Ok(Command::Stdio)
        } else if a == "--http"@ {
            Ok(Command::Http)
        } else if a == "--version"@ || a == "-V"@ {
            Ok(Command::Version)
        } else if a == "--help"@ || a == "-h"@ {
            Ok(Command::Help)
        } else {
            Err("Unknown argument: "@ + a)
        }
    } else {
        Err("Expected at most one argument"@)
    }
}

/// The texts of a list of arguments.
pub open spec fn arg_texts(args: Seq<String>) -> Seq<Seq<char>> {
    Seq::new(args.len(), |i: int| args[i]@)
}

/// Reads the command from the arguments that follow the program name: none
/// means stdio; one chooses the mode, the version or the help; anything
/// else is refused with the message to print before the help.
pub fn parse_args(args: &Vec<String>) -> (r: Result<Command, String>)
    ensures
        match (r, command_of(arg_texts(args@))) {
            (Ok(c), Ok(d)) => c == d,
            (Err(m), Err(e)) => m@ == e,
            _ => false,
        },
{
    let ghost texts = arg_texts(args@);
    if args.len() == 0 {
        Ok(Command::Stdio)
    } else if args.len() == 1 {
        let a = args[0].as_str();
        assert(texts[0] == a@);
        if str_eq(a, "--stdio") {
            Ok(Command::Stdio)
        } else if str_eq(a, "--http") {
            Ok(Command::Http)
        } else if str_eq(a, "--version") || str_eq(a, "-V") {
            Ok(Command::Version)
        } else if str_eq(a, "--help") || str_eq(a, "-h") {
            Ok(Command::Help)
        } else {
            let mut m = owned("Unknown argument: ");
            m.append(a);
            Err(m)
        }
    } else {
        Err(owned("Expected at most one argument"))
    }
}

/// A line of text, ended by a newline.
pub open spec fn line(t: Seq<char>) -> Seq<char> {
    t + "\n"@
}

/// The help text, line by line.
pub open spec fn help_message() -> Seq<char> {
    line("kibana-mcp-server "@ + server_version()) + line(
        "MCP server for accessing logs in Kibana/Elasticsearch"@,
    ) + "\n"@ + line("Usage: kibana-mcp-server [COMMAND]"@) + "\n"@ + line("Commands:"@) + line(
        "  --stdio      Run in stdio mode (default)"@,
    ) + line("  --http       Run in HTTP mode"@) + line("  --version    Print version and exit"@)
        + line("  --help       Print this help and exit"@) + "\n"@ + line(
        "Environment variables:"@,
    ) + line("  KIBANA_URL        Kibana or Elasticsearch base URL (required)"@) + line(
        "  KIBANA_USERNAME   Username for basic authentication"@,
    ) + line("  KIBANA_PASSWORD   Password for basic authentication"@) + line(
        "  KIBANA_API_KEY    API key for Elasticsearch authentication"@,
    ) + line("  KIBANA_INSECURE   Skip TLS verification (\"true\" or \"1\")"@) + "\n"@ + line(
        "HTTP mode variables:"@,
    ) + line("  MCP_HOST          Host to bind [default: 127.0.0.1]"@) + line(
        "  MCP_PORT          Port to bind [default: 8080]"@,
    ) + line("  MCP_AUTH_TOKEN    Bearer token for HTTP authentication"@)
}

fn push_line(out: &mut String, t: &str)
    ensures
        final(out)@ == old(out)@ + line(t@),
{
    out.append(t);
    out.append("\n");
}

/// The help text (what `--help` prints, and what follows a refused
/// command line).
pub fn help_text() -> (r: String)
    ensures
        r@ == help_message(),
{
    let mut first = owned("kibana-mcp-server ");
    first.append(version());
    let mut out = String::new();
    push_line(&mut out, first.as_str());
    assert(out@ =~= line("kibana-mcp-server "@ + server_version()));
    push_line(&mut out, "MCP server for accessing logs in Kibana/Elasticsearch");
    out.append("\n");
    push_line(&mut out, "Usage: kibana-mcp-server [COMMAND]");
    out.append("\n");
    push_line(&mut out, "Commands:");
    push_line(&mut out, "  --stdio      Run in stdio mode (default)");
    push_line(&mut out, "  --http       Run in HTTP mode");
    push_line(&mut out, "  --version    Print version and exit");
    push_line(&mut out, "  --help       Print this help and exit");
    out.append("\n");
    push_line(&mut out, "Environment variables:");
    push_line(&mut out, "  KIBANA_URL        Kibana or Elasticsearch base URL (required)");
    push_line(&mut out, "  KIBANA_USERNAME   Username for basic authentication");
    push_line(&mut out, "  KIBANA_PASSWORD   Password for basic authentication");
    push_line(&mut out, "  KIBANA_API_KEY    API key for Elasticsearch authentication");
    push_line(&mut out, "  KIBANA_INSECURE   Skip TLS verification (\"true\" or \"1\")");
    out.append("\n");
    push_line(&mut out, "HTTP mode variables:");
    push_line(&mut out, "  MCP_HOST          Host to bind [default: 127.0.0.1]");
    push_line(&mut out, "  MCP_PORT          Port to bind [default: 8080]");
    push_line(&mut out, "  MCP_AUTH_TOKEN    Bearer token for HTTP authentication");
    out
}

/// The version line: the program's name and version.
pub fn version_text() -> (r: String)
    ensures
        r@ == "kibana-mcp-server "@ + server_version(),
{
    let mut out = owned("kibana-mcp-server ");
    out.append(version());
    out
}

} // verus!

//! The command-line surface (flags and subcommands) and which action a
//! parsed command line asks for.

use vstd::prelude::*;
use crate::text::{chars_of, trim_bounds, trim_spec};

verus! {

/// The parsed command line.
pub struct Cli {
    /// Ask a question (optionally grounded by --doc/--txt/--dir or piped stdin).
    pub ask: Option<String>,
    /// Analyze a document (PDF/DOCX/XLSX/PPTX/image).
    pub doc: Option<String>,
    /// Analyze a plain-text file.
    pub txt: Option<String>,
    /// Index/query a directory as a knowledge base.
    pub dir: Option<String>,
    /// Describe an image.
    pub image: Option<String>,
    /// Transcribe an audio file.
    pub audio: Option<String>,
    /// Page range for --doc (e.g. "1-5").
    pub pages: Option<String>,
    /// Number of chunks to retrieve.
    pub top_k: Option<usize>,
    /// Characters per chunk when embedding.
    pub chunk_size: Option<usize>,
    /// Model variant: e2b or e4b.
    pub model: Option<String>,
    /// Print correlation-graph stats and exit.
    pub graph_stats: bool,
    /// Run a raw Cypher query against the correlation graph.
    pub graph_query: Option<String>,
    /// Verify model weights integrity and exit.
    pub verify_models: bool,
    /// Remove models, caches, and scripts.
    pub uninstall: bool,
    /// Assume "yes" to confirmations (e.g. --uninstall).
    pub yes: bool,
    /// A subcommand, if any.
    pub command: Option<Command>,
}

/// Subcommands.
pub enum Command {
    /// Dependency check + live backend/model report.
    Doctor,
    /// Inspect or clear the vector cache (`info` | `list` | `clear`).
    Cache { action: String },
}

/// What a command line asks the program to do.
pub enum Dispatch {
    Doctor,
    Cache(String),
    VerifyModels,
    Uninstall { yes: bool },
    GraphStats,
    GraphQuery(String),
    Image(String),
    Audio(String),
    /// A question grounded by `--doc`, `--txt` or `--dir`.
    AskGrounded(String),
    /// A bare question (answered from piped input, the knowledge base, or
    /// the model alone).
    Ask(String),
    /// Nothing asked: print the help.
    Help,
}

/// The action a command line selects: subcommands first, then the
/// standalone flags (`--verify-models`, `--uninstall`, `--graph-stats`,
/// `--graph-query`), then `--image`, `--audio`, `--ask`; else the help.
pub open spec fn dispatch_spec(cli: Cli) -> Dispatch {
    match cli.command {
        Some(Command::Doctor) => Dispatch::Doctor,
        Some(Command::Cache { action }) => Dispatch::Cache(action),
        None => if cli.verify_models {
            Dispatch::VerifyModels
        } else if cli.uninstall {
            Dispatch::Uninstall { yes: cli.yes }
        } else if cli.graph_stats {
            Dispatch::GraphStats
        } else if cli.graph_query is Some {
            Dispatch::GraphQuery(cli.graph_query->0)
        } else if cli.image is Some {
            Dispatch::Image(cli.image->0)
        } else if cli.audio is Some {
            Dispatch::Audio(cli.audio->0)
        } else if cli.ask is Some {
            if cli.doc is Some || cli.txt is Some || cli.dir is Some {
                Dispatch::AskGrounded(cli.ask->0)
            } else {
                Dispatch::Ask(cli.ask->0)
            }
        } else {
            Dispatch::Help
        },
    }
}

/// Decides what the command line asks for.
pub fn dispatch(cli: &Cli) -> (r: Dispatch)
    ensures
        r == dispatch_spec(*cli),
{
    match &cli.command {
        Some(Command::Doctor) => {
            return Dispatch::Doctor;
        },
        Some(Command::Cache { action }) => {
            return Dispatch::Cache(action.clone());
        },
        None => {},
    }
    if cli.verify_models {
        return Dispatch::VerifyModels;
    }
    if cli.uninstall {
        return Dispatch::Uninstall { yes: cli.yes };
    }
    if cli.graph_stats {
        return Dispatch::GraphStats;
    }
    if let Some(q) = &cli.graph_query {
        return Dispatch::GraphQuery(q.clone());
    }
    if let Some(p) = &cli.image {
        return Dispatch::Image(p.clone());
    }
    if let Some(p) = &cli.audio {
        return Dispatch::Audio(p.clone());
    }
    if let Some(q) = &cli.ask {
        if cli.doc.is_some() || cli.txt.is_some() || cli.dir.is_some() {
            return Dispatch::AskGrounded(q.clone());
        }
        return Dispatch::Ask(q.clone());
    }
    Dispatch::Help
}

/// Piped standard input counts as input only when it is not blank.
pub fn piped_input(buf: String) -> (r: Option<String>)
    ensures
        trim_spec(buf@).len() > 0 ==> r == Some(buf),
        trim_spec(buf@).len() == 0 ==> r is None,
{
    let cs = chars_of(buf.as_str());
    let (lo, hi) = trim_bounds(&cs);
    if lo < hi {
        Some(buf)
    } else {
        None
    }
}

/// The prompt for a question about piped input.
pub fn piped_prompt(question: &str, piped: &str) -> (r: String)
    ensures
        r@ == question@ + "\n\nAnalyze the following input:\n\n"@ + piped@,
{
    let mut r = question.to_owned();
    r.append("\n\nAnalyze the following input:\n\n");
    r.append(piped);
    r
}

} // verus!

//! Model lifecycle: which weights exist, what `--verify-models` reports, and
//! what `--uninstall` removes and when it may. Downloading, checking and
//! deleting files are the caller's part.

use vstd::prelude::*;
use crate::config::{opt_view, Config, E2B_FILE, E2B_REPO, E4B_FILE, E4B_REPO, EMBED_MODEL};
use crate::numbers::{decimal_spec, format_u64};
use crate::paths::{join_path, join_spec, replace_char, replace_char_spec};
use crate::text::{concat2, lowercase_of, str_to_lowercase, same_text, trim, trim_spec, views};

verus! {

/// The Gemma models: hub repository and weights file of each variant.
pub fn gemma_models() -> (r: Vec<(&'static str, &'static str)>)
    ensures
        r.len() == 2,
        r@[0].0@ == E2B_REPO@ && r@[0].1@ == E2B_FILE@,
        r@[1].0@ == E4B_REPO@ && r@[1].1@ == E4B_FILE@,
{
    let mut v = Vec::new();
    v.push((E2B_REPO, E2B_FILE));
    v.push((E4B_REPO, E4B_FILE));
    v
}

/// The outcome of `--verify-models` after `failed` models failed: a closing
/// line when none did, else the error.
pub fn verify_outcome(failed: u64) -> (r: Result<String, String>)
    ensures
        failed == 0 ==> (r matches Ok(s) && s@ == "All models verified."@),
        failed > 0 ==> (r matches Err(e) && e@ == decimal_spec(failed as nat)
            + " model(s) failed verification"@),
{
    if failed == 0 {
        Ok("All models verified.".to_owned())
    } else {
        let mut e = format_u64(failed);
        e.append(" model(s) failed verification");
        Err(e)
    }
}

/// The hub-cache directory of a repository.
pub open spec fn repo_dir_spec(hf_home: Seq<char>, repo: Seq<char>) -> Seq<char> {
    join_spec(join_spec(hf_home, "hub"@), "models--"@ + replace_char_spec(repo, '/', "--"@))
}

fn repo_dir(hf_home: &str, repo: &str) -> (r: String)
    ensures
        r@ == repo_dir_spec(hf_home@, repo@),
{
    let hub = join_path(hf_home, "hub");
    let mut name = "models--".to_owned();
    let esc = replace_char(repo, '/', "--");
    name.append(esc.as_str());
    join_path(hub.as_str(), name.as_str())
}

/// Everything `--uninstall` may remove: both Gemma models and the embedder
/// in the hub cache, the vector cache and its `<cache>.meta` sidecar, the graph, and
/// the genie directory.
pub open spec fn uninstall_targets_spec(cfg: Config) -> Seq<Seq<char>> {
    seq![
        repo_dir_spec(cfg.hf_home@, E2B_REPO@),
        repo_dir_spec(cfg.hf_home@, E4B_REPO@),
        repo_dir_spec(cfg.hf_home@, EMBED_MODEL@),
        cfg.cache_db@,
        cfg.cache_db@ + ".meta"@,
        cfg.graph_db@,
        cfg.genie_dir@,
    ]
}

/// The paths `--uninstall` removes when they exist.
pub fn uninstall_targets(cfg: &Config) -> (r: Vec<String>)
    ensures
        views(r@) == uninstall_targets_spec(*cfg),
{
    let mut v: Vec<String> = Vec::new();
    v.push(repo_dir(cfg.hf_home.as_str(), E2B_REPO));
    v.push(repo_dir(cfg.hf_home.as_str(), E4B_REPO));
    v.push(repo_dir(cfg.hf_home.as_str(), EMBED_MODEL));
    v.push(cfg.cache_db.clone());
    v.push(concat2(cfg.cache_db.as_str(), ".meta"));
    v.push(cfg.graph_db.clone());
    v.push(cfg.genie_dir.clone());
    assert(views(v@) =~= uninstall_targets_spec(*cfg));
    v
}

/// What `--uninstall` does once it knows which targets exist.
pub enum UninstallGate {
    /// Nothing exists: say so and stop.
    NothingToRemove,
    /// List the targets and remove them.
    Proceed,
    /// List the targets, then fail: confirmation is needed and cannot be
    /// asked for.
    Refuse,
    /// List the targets and ask for confirmation.
    Ask,
}

/// The uninstall guard: without `--yes` it never removes anything unasked;
/// when standard input is not a terminal it refuses.
pub fn uninstall_gate(existing: usize, yes: bool, stdin_is_terminal: bool) -> (r: UninstallGate)
    ensures
        existing == 0 ==> r is NothingToRemove,
        existing > 0 && yes ==> r is Proceed,
        existing > 0 && !yes && !stdin_is_terminal ==> r is Refuse,
        existing > 0 && !yes && stdin_is_terminal ==> r is Ask,
{
    if existing == 0 {
        UninstallGate::NothingToRemove
    } else if yes {
        UninstallGate::Proceed
    } else if !stdin_is_terminal {
        UninstallGate::Refuse
    } else {
        UninstallGate::Ask
    }
}

/// The error `--uninstall` fails with when it cannot ask.
pub fn refuse_message() -> (r: String)
    ensures
        r@ == "re-run with --yes to confirm (non-interactive)"@,
{
    "re-run with --yes to confirm (non-interactive)".to_owned()
}

/// Whether an answer to "Proceed? [y/N]" confirms: `y` or `yes`, in any
/// case, ignoring surrounding whitespace.
pub fn confirms(answer: &str) -> (r: bool)
    ensures
        r == (lowercase_of(trim_spec(answer@)) == "y"@ || lowercase_of(trim_spec(answer@))
            == "yes"@),
{
    let t = trim(answer);
    let l = str_to_lowercase(t.as_str());
    same_text(l.as_str(), "y") || same_text(l.as_str(), "yes")
}

/// The listing shown before removing: a header and one line per path.
pub fn removal_lines(existing: &Vec<String>) -> (r: Vec<String>)
    ensures
        r.len() == existing.len() + 1,
        r@[0]@ == "This will remove:"@,
        forall|i: int| 0 <= i < existing.len() ==> (#[trigger] r@[i + 1])@ == "  - "@ + existing@[i]@,
{
    let mut v: Vec<String> = Vec::new();
    v.push("This will remove:".to_owned());
    let mut i: usize = 0;
    while i < existing.len()
        invariant
            i <= existing.len(),
            v.len() == i + 1,
            v@[0]@ == "This will remove:"@,
            forall|j: int| 0 <= j < i ==> (#[trigger] v@[j + 1])@ == "  - "@ + existing@[j]@,
        decreases existing.len() - i,
    {
        let mut l = "  - ".to_owned();
        l.append(existing[i].as_str());
        v.push(l);
        i += 1;
    }
    v
}

} // verus!

//! Compute-backend selection: the forced or cached choice, the one-time GPU
//! probe's command line, and how its output is judged. Running the probe
//! and reading or writing the cache file are the caller's part.

use vstd::prelude::*;
use crate::config::{opt_view, Config};
use crate::llm::{error_marker_spec, is_error_marker, is_noise, noise_spec};
use crate::text::{
    chars_of, is_blank, is_whitespace_char, lines, lines_spec, skip_whitespace, trim, trim_end_spec,
    trim_spec, trim_start_spec, views,
};

verus! {

/// The backend known without probing: the forced one, else the cached
/// choice (trimmed) when it is not blank.
pub open spec fn known_backend_spec(forced: Option<String>, cached: Option<String>) -> Option<
    Seq<char>,
> {
    match forced {
        Some(b) => Some(b@),
        None => match cached {
            Some(s) => if trim_spec(s@).len() > 0 {
                Some(trim_spec(s@))
            } else {
                None
            },
            None => None,
        },
    }
}

/// Resolves the backend without probing: `GENIE_BACKEND`, else the cached
/// choice (`cached` is the cache file's contents, if it could be read).
/// `None` means the GPU has to be probed once.
pub fn resolve(cfg: &Config, cached: &Option<String>) -> (r: Option<String>)
    ensures
        opt_view(r) == known_backend_spec(cfg.forced_backend, *cached),
{
    if let Some(b) = &cfg.forced_backend {
        return Some(b.clone());
    }
    match cached {
        Some(s) => {
            let t = trim(s.as_str());
            if t.as_str().is_empty() {
                None
            } else {
                Some(t)
            }
        },
        None => None,
    }
}

/// The backend the probe chooses: `gpu` when the GPU works, else `cpu`.
pub open spec fn probe_choice_spec(gpu_works: bool) -> Seq<char> {
    if gpu_works {
        "gpu"@
    } else {
        "cpu"@
    }
}

/// The backend chosen by the probe (and written to the cache).
pub fn probe_choice(gpu_works: bool) -> (r: String)
    ensures
        r@ == probe_choice_spec(gpu_works),
{
    if gpu_works {
        "gpu".to_owned()
    } else {
        "cpu".to_owned()
    }
}

/// Detection is one-time: once the cache holds what the probe chose,
/// resolving again needs no probe and gives that choice (or the forced
/// backend, when one is forced).
pub proof fn law_detection_is_one_time(forced: Option<String>, cached: String, gpu_works: bool)
    requires
        cached@ == probe_choice_spec(gpu_works),
    ensures
        known_backend_spec(forced, Some(cached)) is Some,
        forced is None ==> known_backend_spec(forced, Some(cached)) == Some(probe_choice_spec(gpu_works)),
{
    reveal_strlit("gpu");
    reveal_strlit("cpu");
    let c = cached@;
    assert(c.len() == 3);
    assert(!is_whitespace_char(c[0]));
    assert(trim_start_spec(c) == c);
    assert(!is_whitespace_char(c.last()));
    assert(trim_end_spec(c) == c);
}

/// The message after the probe: which backend is used and where the choice
/// is cached.
pub fn probe_message(backend: &str, cache_path: &str) -> (r: String)
    ensures
        r@ == "Using "@ + backend@ + " backend (cached in "@ + cache_path@ + ")."@,
{
    let mut r = "Using ".to_owned();
    r.append(backend);
    r.append(" backend (cached in ");
    r.append(cache_path);
    r.append(").");
    r
}

/// The command that tries a tiny generation on the GPU: the base command,
/// then `--backend=gpu --max-num-tokens 64 --prompt ok`.
pub fn verify_gpu_argv(base: &Vec<String>) -> (r: Vec<String>)
    ensures
        views(r@) == views(base@) + seq![
            "--backend=gpu"@,
            "--max-num-tokens"@,
            "64"@,
            "--prompt"@,
            "ok"@,
        ],
{
    let mut v = base.clone();
    assert(v@ =~= base@);
    let ghost b = views(base@);
    v.push("--backend=gpu".to_owned());
    v.push("--max-num-tokens".to_owned());
    v.push("64".to_owned());
    v.push("--prompt".to_owned());
    v.push("ok".to_owned());
    assert(views(v@) =~= b + seq![
        "--backend=gpu"@,
        "--max-num-tokens"@,
        "64"@,
        "--prompt"@,
        "ok"@,
    ]);
    v
}

/// The GPU genuinely works when the probe exits cleanly and its output,
/// without noise lines and error markers, is not blank.
pub open spec fn gpu_works_spec(exit_ok: bool, stdout: Seq<char>) -> bool {
    exit_ok && exists|i: int|
        0 <= i < lines_spec(stdout).len() && !noise_spec(#[trigger] lines_spec(stdout)[i])
            && !error_marker_spec(lines_spec(stdout)[i]) && !is_blank(lines_spec(stdout)[i])
}

/// Judges the GPU probe: a clean exit and some real (non-noise, non-error,
/// non-blank) output. The runtime can exit 0 on a failed generation, so the
/// exit status alone is not enough.
pub fn verify_gpu(exit_ok: bool, stdout: &str) -> (r: bool)
    ensures
        r == gpu_works_spec(exit_ok, stdout@),
{
    if !exit_ok {
        return false;
    }
    let ls = lines(stdout);
    let ghost lv = views(ls@);
    let mut i: usize = 0;
    while i < ls.len()
        invariant
            exit_ok,
            i <= ls.len(),
            lv == views(ls@),
            lv == lines_spec(stdout@),
            forall|j: int|
                0 <= j < i ==> !(!noise_spec(#[trigger] lv[j]) && !error_marker_spec(lv[j])
                    && !is_blank(lv[j])),
        decreases ls.len() - i,
    {
        let line = ls[i].as_str();
        assert(lv[i as int] == line@);
        if !is_noise(line) && !is_error_marker(line) {
            let cs = chars_of(line);
            let lo = skip_whitespace(&cs, 0);
            assert(cs@.skip(0) =~= cs@);
            if lo < cs.len() {
                assert(!is_whitespace_char(line@[lo as int]));
                assert(!is_blank(line@));
                assert(lines_spec(stdout@)[i as int] == line@);
                assert(lv.len() == ls.len());
                assert(0 <= i < lines_spec(stdout@).len() && !noise_spec(lines_spec(stdout@)[i as int])
                    && !error_marker_spec(lines_spec(stdout@)[i as int]) && !is_blank(
                    lines_spec(stdout@)[i as int],
                ));
                return true;
            }
        }
        i += 1;
    }
    false
}

} // verus!

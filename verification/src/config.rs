//! Paths, environment overrides, model resolution, and the litert-lm command
//! builder.

use vstd::prelude::*;
use crate::numbers::{parse_unsigned_spec, parse_usize};
use crate::paths::{find_file, find_spec, join_path, join_spec, replace_char, replace_char_spec, Listing};
use crate::text::{lowercase_of, same_text, str_to_lowercase, trim, trim_spec};

verus! {

/// Pinned litert-lm runtime version (used only for the `uvx` fallback).
pub const LITERT_VERSION: &'static str = "0.13.1";

/// Static embedder used for RAG.
pub const EMBED_MODEL: &'static str = "minishlab/potion-retrieval-32M";

/// Hub repository of the smaller model variant.
pub const E2B_REPO: &'static str = "litert-community/gemma-4-E2B-it-litert-lm";

/// Weights file of the smaller model variant.
pub const E2B_FILE: &'static str = "gemma-4-E2B-it.litertlm";

/// Hub repository of the larger model variant.
pub const E4B_REPO: &'static str = "litert-community/gemma-4-E4B-it-litert-lm";

/// Weights file of the larger model variant.
pub const E4B_FILE: &'static str = "gemma-4-E4B-it.litertlm";

/// Everything the program resolves from its environment at start-up.
pub struct Config {
    pub home: String,
    pub genie_dir: String,
    pub hf_home: String,
    pub backend_cache: String,
    pub model_default_file: String,
    /// GENIE_BACKEND override ("gpu"/"cpu"), if set.
    pub forced_backend: Option<String>,
    /// Resolved model variant: "e2b" or "e4b".
    pub model_variant: String,
    pub cache_db: String,
    pub rag_threshold: usize,
    pub rag_topk: usize,
    pub chunk_size: usize,
    pub rag_ttl: u64,
    pub graph_db: String,
}

/// The environment variables the configuration reads; `None` where a
/// variable is unset or not valid Unicode.
pub struct EnvVars {
    pub home: Option<String>,
    pub hf_home: Option<String>,
    pub genie_dir: Option<String>,
    pub genie_backend_cache: Option<String>,
    pub genie_model_default_file: Option<String>,
    pub genie_backend: Option<String>,
    pub genie_model: Option<String>,
    pub genie_cache_db: Option<String>,
    pub genie_rag_threshold: Option<String>,
    pub genie_rag_topk: Option<String>,
    pub genie_chunk_size: Option<String>,
    pub genie_cache_ttl: Option<String>,
    pub genie_graph_db: Option<String>,
}

/// Why the configuration could not be built.
#[derive(Debug)]
pub enum ConfigError {
    /// `HOME` is not set.
    HomeNotSet,
}

/// The value of a variable when it is set to something non-empty.
pub open spec fn setting(v: Option<String>) -> Option<Seq<char>> {
    match v {
        Some(s) => if s@.len() > 0 {
            Some(s@)
        } else {
            None
        },
        None => None,
    }
}

/// A path variable's value, or `default` when it is unset or empty.
pub open spec fn path_setting(v: Option<String>, default: Seq<char>) -> Seq<char> {
    match setting(v) {
        Some(p) => p,
        None => default,
    }
}

/// A numeric variable's value, or `default` when it is unset, empty, or not
/// a `usize`.
pub open spec fn usize_setting(v: Option<String>, default: usize) -> usize {
    match setting(v) {
        Some(s) => match parse_unsigned_spec(s, usize::MAX as int) {
            Some(n) => n as usize,
            None => default,
        },
        None => default,
    }
}

/// The model variant that `s` names, if any: `e2b` or `e4b` after trimming
/// and lowercasing.
pub open spec fn model_name_spec(s: Seq<char>) -> Option<Seq<char>> {
    let l = lowercase_of(trim_spec(s));
    if l == "e2b"@ {
        Some("e2b"@)
    } else if l == "e4b"@ {
        Some("e4b"@)
    } else {
        None
    }
}

/// The model variant chosen from, in order: the `--model` flag, `GENIE_MODEL`,
/// the saved default, and otherwise the machine's RAM (6 GB or more: `e4b`).
pub open spec fn resolve_model_spec(
    model_override: Option<Seq<char>>,
    env_model: Option<Seq<char>>,
    saved_default: Option<Seq<char>>,
    total_gb: u64,
) -> Seq<char> {
    let from_flag = match model_override {
        Some(s) => model_name_spec(s),
        None => None,
    };
    let from_env = match env_model {
        Some(s) => model_name_spec(s),
        None => None,
    };
    let from_file = match saved_default {
        Some(s) => model_name_spec(s),
        None => None,
    };
    if from_flag is Some {
        from_flag->0
    } else if from_env is Some {
        from_env->0
    } else if from_file is Some {
        from_file->0
    } else if total_gb >= 6 {
        "e4b"@
    } else {
        "e2b"@
    }
}

/// Where `genie` keeps its data, given `HOME`.
pub open spec fn genie_dir_spec(env: EnvVars, home: Seq<char>) -> Seq<char> {
    path_setting(env.genie_dir, join_spec(home, ".genie"@))
}

/// Where the saved default model variant lives, given `HOME`.
pub open spec fn model_default_file_spec(env: EnvVars, home: Seq<char>) -> Seq<char> {
    path_setting(
        env.genie_model_default_file,
        join_spec(genie_dir_spec(env, home), "model_default"@),
    )
}

/// Views of an optional string.
pub open spec fn opt_view(o: Option<String>) -> Option<Seq<char>> {
    match o {
        Some(s) => Some(s@),
        None => None,
    }
}

/// The value of a variable when it is set to something non-empty.
pub fn nonempty(v: &Option<String>) -> (r: Option<String>)
    ensures
        opt_view(r) == setting(*v),
{
    match v {
        Some(s) => {
            if s.as_str().is_empty() {
                None
            } else {
                Some(s.clone())
            }
        },
        None => None,
    }
}

/// A path variable's value, or `default` when it is unset or empty.
pub fn env_path(v: &Option<String>, default: String) -> (r: String)
    ensures
        r@ == path_setting(*v, default@),
{
    match nonempty(v) {
        Some(p) => p,
        None => default,
    }
}

/// A numeric variable's value, or `default` when it is unset, empty, or not
/// a `usize`.
pub fn env_usize(v: &Option<String>, default: usize) -> (r: usize)
    ensures
        r == usize_setting(*v, default),
{
    match nonempty(v) {
        Some(s) => match parse_usize(s.as_str()) {
            Some(n) => n,
            None => default,
        },
        None => default,
    }
}

/// The model variant that `s` names, if any.
pub fn model_name(s: &str) -> (r: Option<String>)
    ensures
        opt_view(r) == model_name_spec(s@),
{
    let t = trim(s);
    let l = str_to_lowercase(t.as_str());
    if same_text(l.as_str(), "e2b") {
        Some("e2b".to_owned())
    } else if same_text(l.as_str(), "e4b") {
        Some("e4b".to_owned())
    } else {
        None
    }
}

/// Chooses the model variant: the `--model` flag, then `GENIE_MODEL`, then
/// the saved default file's contents, then by RAM.
pub fn resolve_model(
    model_override: Option<&str>,
    env_model: &Option<String>,
    saved_default: &Option<String>,
    total_gb: u64,
) -> (r: String)
    ensures
        r@ == resolve_model_spec(
            match model_override {
                Some(s) => Some(s@),
                None => None,
            },
            setting(*env_model),
            opt_view(*saved_default),
            total_gb,
        ),
{
    if let Some(m) = model_override {
        if let Some(v) = model_name(m) {
            return v;
        }
    }
    if let Some(m) = nonempty(env_model) {
        if let Some(v) = model_name(m.as_str()) {
            return v;
        }
    }
    if let Some(s) = saved_default {
        if let Some(v) = model_name(s.as_str()) {
            return v;
        }
    }
    if total_gb >= 6 {
        "e4b".to_owned()
    } else {
        "e2b".to_owned()
    }
}

/// Where the saved default model variant lives (`GENIE_MODEL_DEFAULT_FILE`,
/// else `model_default` in the genie directory); fails when `HOME` is unset.
pub fn model_default_file(env: &EnvVars) -> (r: Result<String, ConfigError>)
    ensures
        match env.home {
            Some(h) => r matches Ok(p) && p@ == model_default_file_spec(*env, h@),
            None => r is Err,
        },
{
    match &env.home {
        Some(home) => {
            let genie_dir = env_path(&env.genie_dir, join_path(home.as_str(), ".genie"));
            Ok(env_path(&env.genie_model_default_file, join_path(genie_dir.as_str(), "model_default")))
        },
        None => Err(ConfigError::HomeNotSet),
    }
}

/// The hub repository and weights file of a model variant: `e2b` names the
/// smaller model, anything else the larger.
pub open spec fn repo_file_spec(variant: Seq<char>) -> (Seq<char>, Seq<char>) {
    if variant == "e2b"@ {
        (E2B_REPO@, E2B_FILE@)
    } else {
        (E4B_REPO@, E4B_FILE@)
    }
}

/// The directory of downloaded snapshots of a hub repository.
pub open spec fn snapshots_dir_spec(hf_home: Seq<char>, repo: Seq<char>) -> Seq<char> {
    join_spec(
        join_spec(join_spec(hf_home, "hub"@), "models--"@ + replace_char_spec(repo, '/', "--"@)),
        "snapshots"@,
    )
}

/// The command that runs litert-lm: the `litert-lm` binary when it is on
/// PATH, else `uvx litert-lm@<version>`; then the local weights, or the hub
/// repository and file when they are not downloaded.
pub open spec fn base_argv_spec(
    variant: Seq<char>,
    litert_on_path: bool,
    model_file: Option<Seq<char>>,
) -> Seq<Seq<char>> {
    let runner = if litert_on_path {
        seq!["litert-lm"@, "run"@]
    } else {
        seq!["uvx"@, "litert-lm@"@ + LITERT_VERSION@, "run"@]
    };
    let model = match model_file {
        Some(p) => seq![p],
        None => seq![
            "--from-huggingface-repo"@,
            repo_file_spec(variant).0,
            repo_file_spec(variant).1,
        ],
    };
    runner + model
}

impl Config {
    /// Builds the configuration from the environment. `saved_default` is the
    /// contents of the file that `model_default_file` names, if it could be
    /// read; `total_gb` is the machine's RAM in whole GB. Fails only when
    /// `HOME` is unset.
    pub fn load(
        env: &EnvVars,
        model_override: Option<&str>,
        saved_default: &Option<String>,
        total_gb: u64,
    ) -> (r: Result<Config, ConfigError>)
        ensures
            env.home is None ==> r is Err,
            env.home matches Some(h) ==> r matches Ok(c) && {
                let home = h@;
                let genie_dir = genie_dir_spec(*env, home);
                &&& c.home@ == home
                &&& c.hf_home@ == path_setting(env.hf_home, join_spec(home, ".cache/huggingface"@))
                &&& c.genie_dir@ == genie_dir
                &&& c.backend_cache@ == path_setting(
                    env.genie_backend_cache,
                    join_spec(genie_dir, "backend"@),
                )
                &&& c.model_default_file@ == model_default_file_spec(*env, home)
                &&& opt_view(c.forced_backend) == setting(env.genie_backend)
                &&& c.model_variant@ == resolve_model_spec(
                    match model_override {
                        Some(s) => Some(s@),
                        None => None,
                    },
                    setting(env.genie_model),
                    opt_view(*saved_default),
                    total_gb,
                )
                &&& c.cache_db@ == path_setting(env.genie_cache_db, join_spec(genie_dir, "genie-cache.db"@))
                &&& c.rag_threshold == usize_setting(env.genie_rag_threshold, 14000)
                &&& c.rag_topk == usize_setting(env.genie_rag_topk, 15)
                &&& c.chunk_size == usize_setting(env.genie_chunk_size, 1000)
                &&& c.rag_ttl == usize_setting(env.genie_cache_ttl, 86400) as u64
                &&& c.graph_db@ == path_setting(
                    env.genie_graph_db,
                    join_spec(genie_dir, "genie-graph.lbug"@),
                )
            },
    {
        let home = match &env.home {
            Some(h) => h.clone(),
            None => {
                return Err(ConfigError::HomeNotSet);
            },
        };
        let hf_home = env_path(&env.hf_home, join_path(home.as_str(), ".cache/huggingface"));
        let genie_dir = env_path(&env.genie_dir, join_path(home.as_str(), ".genie"));
        let backend_cache = env_path(&env.genie_backend_cache, join_path(genie_dir.as_str(), "backend"));
        let model_default_file = env_path(
            &env.genie_model_default_file,
            join_path(genie_dir.as_str(), "model_default"),
        );
        let forced_backend = nonempty(&env.genie_backend);
        let model_variant = resolve_model(model_override, &env.genie_model, saved_default, total_gb);
        let cache_db = env_path(&env.genie_cache_db, join_path(genie_dir.as_str(), "genie-cache.db"));
        let rag_threshold = env_usize(&env.genie_rag_threshold, 14000);
        let rag_topk = env_usize(&env.genie_rag_topk, 15);
        let chunk_size = env_usize(&env.genie_chunk_size, 1000);
        let rag_ttl = env_usize(&env.genie_cache_ttl, 86400) as u64;
        let graph_db = env_path(&env.genie_graph_db, join_path(genie_dir.as_str(), "genie-graph.lbug"));
        Ok(Config {
            home,
            genie_dir,
            hf_home,
            backend_cache,
            model_default_file,
            forced_backend,
            model_variant,
            cache_db,
            rag_threshold,
            rag_topk,
            chunk_size,
            rag_ttl,
            graph_db,
        })
    }

    /// HF repo id + filename for the resolved model variant.
    pub fn model_repo_file(&self) -> (r: (&'static str, &'static str))
        ensures
            (r.0@, r.1@) == repo_file_spec(self.model_variant@),
    {
        if same_text(self.model_variant.as_str(), "e2b") {
            (E2B_REPO, E2B_FILE)
        } else {
            (E4B_REPO, E4B_FILE)
        }
    }

    /// The directory holding the downloaded snapshots of the resolved model
    /// in the HF hub cache.
    pub fn model_snapshots_dir(&self) -> (r: String)
        ensures
            r@ == snapshots_dir_spec(self.hf_home@, repo_file_spec(self.model_variant@).0),
    {
        let (repo, _file) = self.model_repo_file();
        let hub = join_path(self.hf_home.as_str(), "hub");
        let escaped = replace_char(repo, '/', "--");
        let mut name = "models--".to_owned();
        name.append(escaped.as_str());
        let models = join_path(hub.as_str(), name.as_str());
        join_path(models.as_str(), "snapshots")
    }

    /// Path to the model weights in the HF hub cache, if already downloaded:
    /// the weights file searched for in `snapshots` (the listing of
    /// `model_snapshots_dir`) down to three levels below it.
    pub fn model_path(&self, snapshots: &Listing) -> (r: Option<String>)
        ensures
            opt_view(r) == find_spec(*snapshots, repo_file_spec(self.model_variant@).1, 3),
    {
        let (_repo, file) = self.model_repo_file();
        find_file(snapshots, file, 3)
    }

    /// Base argv for invoking litert-lm: the `litert-lm` binary when it is on
    /// PATH (`litert_on_path`), else `uvx litert-lm@<ver> run`; then the model
    /// weights (`model_file`, from `model_path`) or, when they are not
    /// downloaded yet, the hub reference for the runtime to fetch.
    pub fn litert_base_argv(&self, litert_on_path: bool, model_file: Option<String>) -> (r: Vec<
        String,
    >)
        ensures
            r@.map_values(|s: String| s@) == base_argv_spec(
                self.model_variant@,
                litert_on_path,
                opt_view(model_file),
            ),
    {
        let mut v: Vec<String> = Vec::new();
        if litert_on_path {
            v.push("litert-lm".to_owned());
            v.push("run".to_owned());
        } else {
            v.push("uvx".to_owned());
            let mut tool = "litert-lm@".to_owned();
            tool.append(LITERT_VERSION);
            v.push(tool);
            v.push("run".to_owned());
        }
        match model_file {
            Some(p) => {
                v.push(p);
            },
            None => {
                let (repo, file) = self.model_repo_file();
                v.push("--from-huggingface-repo".to_owned());
                v.push(repo.to_owned());
                v.push(file.to_owned());
            },
        }
        assert(v@.map_values(|s: String| s@) =~= base_argv_spec(
            self.model_variant@,
            litert_on_path,
            opt_view(model_file),
        ));
        v
    }
}

} // verus!

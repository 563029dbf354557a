//! Configuration from the environment and command-line dispatch.
use genie::cli::{dispatch, piped_input, piped_prompt, Cli, Command, Dispatch};
use genie::config::{env_path, env_usize, model_name, resolve_model, Config, ConfigError, EnvVars};
use genie::paths::{DirEntry, Listing};

fn env_with_home(home: &str) -> EnvVars {
    EnvVars {
        home: Some(home.to_string()),
        hf_home: None,
        genie_dir: None,
        genie_backend_cache: None,
        genie_model_default_file: None,
        genie_backend: None,
        genie_model: None,
        genie_cache_db: None,
        genie_rag_threshold: None,
        genie_rag_topk: None,
        genie_chunk_size: None,
        genie_cache_ttl: None,
        genie_graph_db: None,
    }
}

#[test]
fn load_uses_defaults_under_home() {
    let env = env_with_home("/home/u");
    let c = Config::load(&env, None, &None, 4).ok().unwrap();
    assert_eq!(c.home, "/home/u");
    assert_eq!(c.hf_home, "/home/u/.cache/huggingface");
    assert_eq!(c.genie_dir, "/home/u/.genie");
    assert_eq!(c.backend_cache, "/home/u/.genie/backend");
    assert_eq!(c.model_default_file, "/home/u/.genie/model_default");
    assert_eq!(c.forced_backend, None);
    assert_eq!(c.model_variant, "e2b");
    assert_eq!(c.cache_db, "/home/u/.genie/genie-cache.db");
    assert_eq!(c.rag_threshold, 14000);
    assert_eq!(c.rag_topk, 15);
    assert_eq!(c.chunk_size, 1000);
    assert_eq!(c.rag_ttl, 86400);
    assert_eq!(c.graph_db, "/home/u/.genie/genie-graph.lbug");
}

#[test]
fn load_honours_variables() {
    let mut env = env_with_home("/home/u");
    env.genie_dir = Some("/data/g".to_string());
    env.hf_home = Some("".to_string());
    env.genie_backend = Some("gpu".to_string());
    env.genie_rag_topk = Some("7".to_string());
    env.genie_chunk_size = Some("oops".to_string());
    env.genie_cache_db = Some("/tmp/c.db".to_string());
    let c = Config::load(&env, Some("E4B"), &Some("e2b\n".to_string()), 2).ok().unwrap();
    assert_eq!(c.genie_dir, "/data/g");
    assert_eq!(c.hf_home, "/home/u/.cache/huggingface");
    assert_eq!(c.backend_cache, "/data/g/backend");
    assert_eq!(c.forced_backend, Some("gpu".to_string()));
    assert_eq!(c.rag_topk, 7);
    assert_eq!(c.chunk_size, 1000);
    assert_eq!(c.cache_db, "/tmp/c.db");
    assert_eq!(c.graph_db, "/data/g/genie-graph.lbug");
    assert_eq!(c.model_variant, "e4b");
}

#[test]
fn load_without_home_fails() {
    let mut env = env_with_home("/x");
    env.home = None;
    assert!(matches!(Config::load(&env, None, &None, 8), Err(ConfigError::HomeNotSet)));
}

#[test]
fn model_choice_precedence() {
    // flag, then GENIE_MODEL, then the saved default, then RAM.
    assert_eq!(resolve_model(Some("e2b"), &Some("e4b".into()), &Some("e4b".into()), 16), "e2b");
    assert_eq!(resolve_model(Some("bogus"), &Some(" E2B ".into()), &Some("e4b".into()), 16), "e2b");
    assert_eq!(resolve_model(None, &Some("".into()), &Some("E2B\n".into()), 16), "e2b");
    assert_eq!(resolve_model(None, &None, &Some("junk".into()), 16), "e4b");
    assert_eq!(resolve_model(None, &None, &None, 6), "e4b");
    assert_eq!(resolve_model(None, &None, &None, 5), "e2b");
}

#[test]
fn model_names_and_settings() {
    assert_eq!(model_name("  E4b "), Some("e4b".to_string()));
    assert_eq!(model_name("e3b"), None);
    assert_eq!(env_usize(&Some("12".into()), 3), 12);
    assert_eq!(env_usize(&Some("".into()), 3), 3);
    assert_eq!(env_usize(&Some("-1".into()), 3), 3);
    assert_eq!(env_usize(&None, 3), 3);
    assert_eq!(env_path(&Some("".into()), "d".to_string()), "d");
    assert_eq!(env_path(&Some("/p".into()), "d".to_string()), "/p");
}

fn config(variant: Option<&str>, gb: u64) -> Config {
    Config::load(&env_with_home("/h"), variant, &None, gb).ok().unwrap()
}

#[test]
fn model_repo_file_and_snapshots() {
    let small = config(Some("e2b"), 1);
    assert_eq!(
        small.model_repo_file(),
        ("litert-community/gemma-4-E2B-it-litert-lm", "gemma-4-E2B-it.litertlm")
    );
    let big = config(None, 32);
    assert_eq!(
        big.model_repo_file(),
        ("litert-community/gemma-4-E4B-it-litert-lm", "gemma-4-E4B-it.litertlm")
    );
    assert_eq!(
        big.model_snapshots_dir(),
        "/h/.cache/huggingface/hub/models--litert-community--gemma-4-E4B-it-litert-lm/snapshots"
    );
}

#[test]
fn model_path_finds_the_weights() {
    let c = config(Some("e2b"), 1);
    let snap = Listing::Entries(vec![DirEntry {
        path: "/s/rev".to_string(),
        name: Some("rev".to_string()),
        is_file: false,
        is_dir: true,
        contents: Listing::Entries(vec![DirEntry {
            path: "/s/rev/gemma-4-E2B-it.litertlm".to_string(),
            name: Some("gemma-4-E2B-it.litertlm".to_string()),
            is_file: true,
            is_dir: false,
            contents: Listing::Unreadable,
        }]),
    }]);
    assert_eq!(c.model_path(&snap), Some("/s/rev/gemma-4-E2B-it.litertlm".to_string()));
    assert_eq!(c.model_path(&Listing::Unreadable), None);
}

#[test]
fn litert_base_argv_variants() {
    let c = config(Some("e2b"), 1);
    assert_eq!(c.litert_base_argv(true, Some("/w.litertlm".into())), vec!["litert-lm", "run", "/w.litertlm"]);
    assert_eq!(
        c.litert_base_argv(false, None),
        vec![
            "uvx",
            "litert-lm@0.13.1",
            "run",
            "--from-huggingface-repo",
            "litert-community/gemma-4-E2B-it-litert-lm",
            "gemma-4-E2B-it.litertlm"
        ]
    );
}

fn cli() -> Cli {
    Cli {
        ask: None,
        doc: None,
        txt: None,
        dir: None,
        image: None,
        audio: None,
        pages: None,
        top_k: None,
        chunk_size: None,
        model: None,
        graph_stats: false,
        graph_query: None,
        verify_models: false,
        uninstall: false,
        yes: false,
        command: None,
    }
}

#[test]
fn dispatch_order() {
    assert!(matches!(dispatch(&cli()), Dispatch::Help));
    let mut c = cli();
    c.ask = Some("q".into());
    c.image = Some("i.png".into());
    c.verify_models = true;
    c.command = Some(Command::Cache { action: "list".into() });
    assert!(matches!(dispatch(&c), Dispatch::Cache(ref a) if a == "list"));
    c.command = None;
    assert!(matches!(dispatch(&c), Dispatch::VerifyModels));
    c.verify_models = false;
    assert!(matches!(dispatch(&c), Dispatch::Image(ref p) if p == "i.png"));
    c.image = None;
    assert!(matches!(dispatch(&c), Dispatch::Ask(ref q) if q == "q"));
    c.dir = Some("/kb".into());
    assert!(matches!(dispatch(&c), Dispatch::AskGrounded(ref q) if q == "q"));
    c.uninstall = true;
    c.yes = true;
    assert!(matches!(dispatch(&c), Dispatch::Uninstall { yes: true }));
    let mut d = cli();
    d.command = Some(Command::Doctor);
    d.graph_stats = true;
    assert!(matches!(dispatch(&d), Dispatch::Doctor));
    d.command = None;
    assert!(matches!(dispatch(&d), Dispatch::GraphStats));
}

#[test]
fn piped_input_and_prompt() {
    assert_eq!(piped_input(" \n\t".to_string()), None);
    assert_eq!(piped_input("data\n".to_string()), Some("data\n".to_string()));
    assert_eq!(
        piped_prompt("Summarize?", "x y"),
        "Summarize?\n\nAnalyze the following input:\n\nx y"
    );
}

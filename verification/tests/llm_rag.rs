//! Model invocation decisions and chunking.
use genie::cli::Cli;
use genie::config::{Config, EnvVars};
use genie::llm::{after_run, build_argv, classify_output_line, describe_image, transcribe_audio, Action, Fallback, OutputLine};
use genie::rag::{ask_message, cache_message, chunk_text};

fn base() -> Vec<String> {
    vec!["litert-lm".to_string(), "run".to_string(), "/w".to_string()]
}

#[test]
fn argv_for_a_question() {
    let v = build_argv(&base(), "gpu", &Action::Ask("hi there".into()));
    assert_eq!(v, vec!["litert-lm", "run", "/w", "--backend=gpu", "--prompt", "hi there"]);
}

fn cfg() -> Config {
    let env = EnvVars {
        home: Some("/h".into()),
        hf_home: None,
        genie_dir: None,
        genie_backend_cache: None,
        genie_model_default_file: None,
        genie_backend: None,
        genie_model: None,
        genie_cache_db: None,
        genie_rag_threshold: None,
        genie_rag_topk: None,
        genie_chunk_size: None,
        genie_cache_ttl: None,
        genie_graph_db: None,
    };
    Config::load(&env, None, &None, 8).ok().unwrap()
}

fn no_flags() -> Cli {
    Cli {
        ask: None,
        doc: None,
        txt: None,
        dir: None,
        image: None,
        audio: None,
        pages: None,
        top_k: None,
        chunk_size: None,
        model: None,
        graph_stats: false,
        graph_query: None,
        verify_models: false,
        uninstall: false,
        yes: false,
        command: None,
    }
}

#[test]
fn argv_for_an_image() {
    let a = describe_image("/p/cat.png", &cfg(), &no_flags());
    let v = build_argv(&base(), "cpu", &a);
    assert_eq!(
        v,
        vec!["litert-lm", "run", "/w", "--backend=cpu", "--vision-backend=cpu", "--attachment", "/p/cat.png", "--prompt", "describe"]
    );
}

#[test]
fn argv_for_audio() {
    let a = transcribe_audio("/p/a.wav", &cfg(), &no_flags());
    let v = build_argv(&base(), "gpu", &a);
    assert_eq!(
        v,
        vec!["litert-lm", "run", "/w", "--backend=gpu", "--audio-backend=cpu", "--attachment", "/p/a.wav", "--prompt", "transcribe"]
    );
}

#[test]
fn output_lines_are_classified() {
    assert!(matches!(classify_output_line("INFO: Loaded OpenCL library with dlopen."), OutputLine::Drop));
    assert!(matches!(classify_output_line("Blue sky."), OutputLine::Show { answer: true }));
    assert!(matches!(classify_output_line("   "), OutputLine::Show { answer: false }));
    assert!(matches!(classify_output_line(" An error occurred: x"), OutputLine::Show { answer: false }));
}

#[test]
fn gpu_without_answer_retries_on_cpu() {
    assert!(matches!(after_run("gpu", false, false), Fallback::RetryOnCpu { cache_cpu: true }));
    assert!(matches!(after_run("gpu", false, true), Fallback::RetryOnCpu { cache_cpu: false }));
}

#[test]
fn successful_or_cpu_runs_are_never_rerun() {
    assert!(matches!(after_run("gpu", true, false), Fallback::Done));
    assert!(matches!(after_run("cpu", false, false), Fallback::Done));
    assert!(matches!(after_run("cpu", true, true), Fallback::Done));
}

#[test]
fn chunk_windows_have_exact_bounds() {
    let text: String = ('a'..='z').cycle().take(2500).collect();
    let chunks = chunk_text(&text, 1000, 150);
    let expected: Vec<String> = vec![
        text[0..1000].to_string(),
        text[850..1850].to_string(),
        text[1700..2500].to_string(),
    ];
    assert_eq!(chunks, expected);
}

#[test]
fn chunks_overlap_and_rejoin() {
    let chunks = chunk_text("  abcdefghij  ", 4, 1);
    assert_eq!(chunks, vec!["abcd", "defg", "ghij"]);
    let mut rejoined = chunks[0].clone();
    for c in &chunks[1..] {
        rejoined.push_str(&c[1..]);
    }
    assert_eq!(rejoined, "abcdefghij");
}

#[test]
fn chunk_edge_settings() {
    assert_eq!(chunk_text("abc", 0, 0), vec!["a", "b", "c"]);
    assert_eq!(chunk_text("abcdef", 3, 5), vec!["abc", "def"]);
    assert_eq!(chunk_text("", 10, 2), Vec::<String>::new());
}

#[test]
fn unavailable_command_messages() {
    assert_eq!(
        ask_message(),
        "genie (rust): document-grounded --ask (--doc/--txt/--dir) not yet implemented."
    );
    assert_eq!(cache_message("list"), "genie (rust): cache list not yet implemented.");
}

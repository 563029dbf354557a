//! Backend selection and the doctor report.
use genie::backend::{probe_choice, probe_message, resolve, verify_gpu, verify_gpu_argv};
use genie::config::{Config, EnvVars};
use genie::doctor::{doctor_report, report_after_check, report_backend, resolved_source, status_line, BackendStep, DoctorFacts};

fn cfg(forced: Option<&str>) -> Config {
    let env = EnvVars {
        home: Some("/h".into()),
        hf_home: None,
        genie_dir: None,
        genie_backend_cache: None,
        genie_model_default_file: None,
        genie_backend: forced.map(|s| s.to_string()),
        genie_model: None,
        genie_cache_db: None,
        genie_rag_threshold: None,
        genie_rag_topk: None,
        genie_chunk_size: None,
        genie_cache_ttl: None,
        genie_graph_db: None,
    };
    Config::load(&env, None, &None, 8).ok().unwrap()
}

#[test]
fn forced_backend_overrides_the_cache() {
    assert_eq!(resolve(&cfg(Some("cpu")), &Some("gpu".into())), Some("cpu".to_string()));
    assert_eq!(resolve(&cfg(None), &Some(" gpu\n".into())), Some("gpu".to_string()));
    assert_eq!(resolve(&cfg(None), &Some("  \n".into())), None);
    assert_eq!(resolve(&cfg(None), &None), None);
}

#[test]
fn probe_outcome() {
    assert_eq!(probe_choice(true), "gpu");
    assert_eq!(probe_choice(false), "cpu");
    assert_eq!(probe_message("gpu", "/h/.genie/backend"), "Using gpu backend (cached in /h/.genie/backend).");
    assert_eq!(
        verify_gpu_argv(&vec!["litert-lm".into(), "run".into()]),
        vec!["litert-lm", "run", "--backend=gpu", "--max-num-tokens", "64", "--prompt", "ok"]
    );
}

#[test]
fn gpu_check_needs_clean_exit_and_real_output() {
    assert!(verify_gpu(true, "INFO: Loaded OpenCL library with dlopen.\nOK!\n"));
    assert!(!verify_gpu(false, "OK!\n"));
    assert!(!verify_gpu(true, "An error occurred\n  \n"));
    assert!(!verify_gpu(true, ""));
    assert!(!verify_gpu(true, "Loaded OpenCL library with dlopen\n"));
}

#[test]
fn backend_report_first_step() {
    match report_backend(&Some("gpu".into()), &Some("cpu".into()), true) {
        BackendStep::CheckGpu { source, forced } => {
            assert_eq!(source, "forced via GENIE_BACKEND");
            assert!(forced);
        }
        _ => panic!("expected a GPU check"),
    }
    match report_backend(&None, &Some("gpu\n".into()), false) {
        BackendStep::Report { backend, source } => {
            assert_eq!(backend, "gpu");
            assert_eq!(source, "cached (model not downloaded yet \u{2014} not verified)");
        }
        _ => panic!("expected a report"),
    }
    assert!(matches!(report_backend(&None, &None, true), BackendStep::Resolve));
    match report_backend(&None, &None, false) {
        BackendStep::Report { backend, source } => {
            assert_eq!(backend, "unknown");
            assert_eq!(source, "will auto-detect on first query");
        }
        _ => panic!("expected a report"),
    }
    match report_backend(&None, &Some("cpu".into()), true) {
        BackendStep::Report { backend, source } => {
            assert_eq!(backend, "cpu");
            assert_eq!(source, "cached");
        }
        _ => panic!("expected a report"),
    }
    assert_eq!(resolved_source(), "auto-detected just now");
}

#[test]
fn after_the_gpu_check() {
    let ok = report_after_check("cached", false, true);
    assert_eq!((ok.backend.as_str(), ok.source.as_str(), ok.cache_cpu), ("gpu", "cached, verified working with litert-lm", false));
    let forced = report_after_check("forced via GENIE_BACKEND", true, false);
    assert_eq!(forced.backend, "gpu");
    assert!(!forced.cache_cpu);
    assert_eq!(forced.source, "forced via GENIE_BACKEND \u{2014} WARNING: GPU did not run with litert-lm");
    let fell = report_after_check("cached", false, false);
    assert_eq!(fell.backend, "cpu");
    assert!(fell.cache_cpu);
    assert_eq!(fell.source, "GPU did not run with litert-lm \u{2014} fell back to CPU");
}

#[test]
fn status_lines_pad_the_tag() {
    assert_eq!(status_line("[ok]", "fine"), "  [ok]      fine");
    assert_eq!(status_line("[MISSING]", "x"), "  [MISSING] x");
    assert_eq!(status_line("[very-long-tag]", "x"), "  [very-long-tag] x");
}

#[test]
fn doctor_report_lines() {
    let f = DoctorFacts {
        version: "0.2.4".into(),
        litert_on_path: false,
        uvx_on_path: true,
        soffice_on_path: false,
        model_path: None,
        model_variant: "e2b".into(),
        backend: "cpu".into(),
        backend_source: "cached".into(),
        total_gb: 4,
        genie_dir: "/h/.genie".into(),
        hf_home: "/h/.cache/huggingface".into(),
    };
    let r = doctor_report(&f);
    assert_eq!(
        r,
        vec![
            "Gemma Genie 0.2.4 (rust)".to_string(),
            "".to_string(),
            "Dependency check:".to_string(),
            "  [ok]      litert-lm via uvx (binary not on PATH)".to_string(),
            "  [warn]    LibreOffice (soffice) not found \u{2014} DOCX/XLSX/PPTX need it (PDF/images are fine)".to_string(),
            "  [warn]    model weights for e2b not downloaded yet (will fetch on first run)".to_string(),
            "  [info]    compute backend: CPU (cached)".to_string(),
            "  [info]    default model: e2b (system RAM: 4GB; override with --model / GENIE_MODEL)".to_string(),
            "".to_string(),
            "Caches: /h/.genie (genie data), /h/.cache/huggingface (HF models)".to_string(),
        ]
    );
}

#[test]
fn detection_is_one_time() {
    for works in [true, false] {
        let written = probe_choice(works);
        assert_eq!(resolve(&cfg(None), &Some(written.clone())), Some(written));
    }
    assert_eq!(resolve(&cfg(Some("cpu")), &Some(probe_choice(true))), Some("cpu".to_string()));
}

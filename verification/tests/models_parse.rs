//! Model lifecycle decisions and document routing.
use genie::config::{Config, EnvVars};
use genie::models::{confirms, gemma_models, refuse_message, removal_lines, uninstall_gate, uninstall_targets, verify_outcome, UninstallGate};
use genie::parse::{ext_of, extract_route, is_office_ext, is_text_ext, libreoffice_install_cmd, needs_office_message, Route};

fn cfg() -> Config {
    let env = EnvVars {
        home: Some("/h".into()),
        hf_home: Some("/hf".into()),
        genie_dir: None,
        genie_backend_cache: None,
        genie_model_default_file: None,
        genie_backend: None,
        genie_model: None,
        genie_cache_db: None,
        genie_rag_threshold: None,
        genie_rag_topk: None,
        genie_chunk_size: None,
        genie_cache_ttl: None,
        genie_graph_db: None,
    };
    Config::load(&env, None, &None, 8).ok().unwrap()
}

#[test]
fn both_gemma_models_listed() {
    assert_eq!(
        gemma_models(),
        vec![
            ("litert-community/gemma-4-E2B-it-litert-lm", "gemma-4-E2B-it.litertlm"),
            ("litert-community/gemma-4-E4B-it-litert-lm", "gemma-4-E4B-it.litertlm"),
        ]
    );
}

#[test]
fn verify_outcome_messages() {
    assert_eq!(verify_outcome(0), Ok("All models verified.".to_string()));
    assert_eq!(verify_outcome(2), Err("2 model(s) failed verification".to_string()));
}

#[test]
fn uninstall_targets_cover_models_caches_and_data() {
    assert_eq!(
        uninstall_targets(&cfg()),
        vec![
            "/hf/hub/models--litert-community--gemma-4-E2B-it-litert-lm",
            "/hf/hub/models--litert-community--gemma-4-E4B-it-litert-lm",
            "/hf/hub/models--minishlab--potion-retrieval-32M",
            "/h/.genie/genie-cache.db",
            "/h/.genie/genie-cache.db.meta",
            "/h/.genie/genie-graph.lbug",
            "/h/.genie",
        ]
    );
}

#[test]
fn uninstall_guard_refuses_without_yes() {
    assert!(matches!(uninstall_gate(3, false, false), UninstallGate::Refuse));
    assert_eq!(refuse_message(), "re-run with --yes to confirm (non-interactive)");
    assert!(matches!(uninstall_gate(3, false, true), UninstallGate::Ask));
    assert!(matches!(uninstall_gate(3, true, false), UninstallGate::Proceed));
    assert!(matches!(uninstall_gate(0, false, false), UninstallGate::NothingToRemove));
}

#[test]
fn confirmation_answers() {
    assert!(confirms("y\n"));
    assert!(confirms("  YES "));
    assert!(!confirms("no"));
    assert!(!confirms(""));
    assert!(!confirms("yess"));
}

#[test]
fn removal_listing() {
    assert_eq!(removal_lines(&vec!["/a".into(), "/b".into()]), vec!["This will remove:", "  - /a", "  - /b"]);
}

#[test]
fn extensions_are_lowercased() {
    assert_eq!(ext_of("/x/Report.PDF"), "pdf");
    assert_eq!(ext_of("/x/notes"), "");
    assert_eq!(ext_of("/x/.bashrc"), "");
    assert_eq!(ext_of("a.tar.GZ"), "gz");
    assert!(is_text_ext("md"));
    assert!(!is_text_ext("pdf"));
    assert!(is_office_ext("odp"));
    assert!(!is_office_ext("txt"));
}

#[test]
fn extraction_routes() {
    assert!(matches!(extract_route("/d/notes.TXT", false), Route::ReadText));
    assert!(matches!(extract_route("/d/deck.pptx", false), Route::NeedsOffice));
    assert!(matches!(extract_route("/d/deck.pptx", true), Route::Parse));
    assert!(matches!(extract_route("/d/paper.pdf", false), Route::Parse));
}

#[test]
fn libreoffice_hints() {
    assert_eq!(libreoffice_install_cmd(true, true, true, true, true, true), "brew install --cask libreoffice");
    assert!(libreoffice_install_cmd(false, true, true, true, true, true).starts_with("sudo apt-get install"));
    assert!(libreoffice_install_cmd(false, false, true, true, true, true).starts_with("sudo dnf install"));
    assert!(libreoffice_install_cmd(false, false, false, true, true, true).starts_with("sudo yum install"));
    assert_eq!(libreoffice_install_cmd(false, false, false, false, true, true), "sudo pacman -S --needed libreoffice-fresh");
    assert!(libreoffice_install_cmd(false, false, false, false, false, true).starts_with("sudo zypper install"));
    assert_eq!(
        libreoffice_install_cmd(false, false, false, false, false, false),
        "install LibreOffice (it provides the `soffice` command)"
    );
    assert_eq!(
        needs_office_message("/d/a.docx", "X"),
        "parsing '/d/a.docx' needs LibreOffice, but the 'soffice' command was not found.\nInstall the minimal LibreOffice components with:\n  X"
    );
}

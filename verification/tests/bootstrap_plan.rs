//! The installer's environment report, component plan and downloads.
use genie::bootstrap::{
    arg_value, build_plan, check_digest, detect_gpu, env_lines, fetch_targets, find_artifact, has_flag, hex,
    install_dest, install_step, is_binary_item, is_remote_source, lib_candidates, plan_lines, probe_env, table_insert,
    url_file_name, verify_download, Artifact, Components, Env, GpuProbe, InstallStep, Manifest,
};

fn art(url: &str, size: u64) -> Artifact {
    Artifact { url: url.to_string(), sha256: String::new(), size }
}

fn linux_env(ram_gb: u64, gpu: Option<&str>, soffice: bool) -> Env {
    probe_env("linux", "x86_64", false, gpu.map(|g| g.to_string()), ram_gb, soffice, "/h/.genie".to_string(), false)
}

fn test_manifest(triple: &str) -> Manifest {
    Manifest {
        version: "test".to_string(),
        components: Components {
            binary: vec![(triple.to_string(), art("https://x/genie", 1))],
            runtime: vec![(triple.to_string(), art("https://x/rt", 2))],
            gpu: vec![],
            model: vec![("e2b".to_string(), art("https://x/e2b", 3)), ("e4b".to_string(), art("https://x/e4b", 4))],
            embedder: Some(art("https://x/emb", 5)),
        },
    }
}

fn count(lines: &[String], needle: &str) -> usize {
    lines.iter().map(|l| l.matches(needle).count()).sum()
}

#[test]
fn environment_follows_the_probe() {
    let e = linux_env(16, Some("cuda"), true);
    assert_eq!(e.triple, "x86_64-linux-gnu");
    assert_eq!(e.libc, Some("gnu".to_string()));
    assert_eq!(e.model, "e4b");
    let m = probe_env("linux", "aarch64", true, None, 4, false, "/g".into(), true);
    assert_eq!(m.triple, "aarch64-linux-musl");
    assert_eq!(m.model, "e2b");
    let mac = probe_env("macos", "aarch64", true, Some("metal".into()), 6, true, "/g".into(), true);
    assert_eq!(mac.triple, "aarch64-macos");
    assert_eq!(mac.libc, None);
    assert_eq!(mac.model, "e4b");
}

#[test]
fn gpu_detection() {
    let none = GpuProbe { nvidia_driver: false, nvidia_device: false, nvidia_smi: false, vulkan_icd: false, vulkan_lib: false, vulkaninfo: false, dri: false };
    assert_eq!(detect_gpu("macos", &none), Some("metal".to_string()));
    assert_eq!(detect_gpu("windows", &none), Some("directml".to_string()));
    assert_eq!(detect_gpu("linux", &none), None);
    assert_eq!(detect_gpu("freebsd", &none), None);
    let dri = GpuProbe { dri: true, ..none };
    assert_eq!(detect_gpu("linux", &dri), Some("vulkan".to_string()));
    let both = GpuProbe { nvidia_smi: true, vulkan_icd: true, ..none };
    assert_eq!(detect_gpu("linux", &both), Some("cuda".to_string()));
}

#[test]
fn dry_run_reports_env_and_plan() {
    let e = linux_env(4, None, false);
    let env_text = env_lines(&e);
    assert_eq!(
        env_text,
        vec![
            "Gemma Genie installer \u{2014} detected environment:",
            "  os/arch : linux/x86_64 (gnu)",
            "  target  : x86_64-linux-gnu",
            "  gpu     : none (CPU)",
            "  ram     : 4 GB  -> model e2b",
            "  soffice : missing",
            "  ~/.genie: new",
        ]
    );
    assert!(env_text.iter().any(|l| l.contains("target  :")));
    let plan = build_plan(&e, &None);
    let lines = plan_lines(&plan);
    assert!(lines[0].contains("Component plan"));
    assert_eq!(lines[0], "\nComponent plan (only what this environment needs):");
    assert_eq!(count(&lines, "model:"), 1);
    assert_eq!(count(&lines, "fetch ("), 0);
    assert_eq!(
        lines[1..].to_vec(),
        vec![
            "  [skip] genie binary (x86_64-linux-gnu) \u{2014} the CLI",
            "  [skip] litert-lm runtime (x86_64-linux-gnu) \u{2014} inference engine",
            "  [skip] GPU backend \u{2014} skipped \u{2014} no GPU detected (CPU only)",
            "  [skip] model: e2b \u{2014} chosen by RAM (4 GB); the other variant is NOT fetched",
            "  [skip] embedder (potion-retrieval-32M) \u{2014} small; always needed for RAG",
            "  [skip] LibreOffice (soffice) \u{2014} missing \u{2014} install hint only (DOCX/XLSX/PPTX)",
        ]
    );
}

#[test]
fn manifest_resolves_minimal_set() {
    let e = linux_env(8, None, true);
    let m = Some(test_manifest(&e.triple));
    assert_eq!(m.as_ref().map(|m| m.version.as_str()), Some("test"));
    let plan = build_plan(&e, &m);
    let lines = plan_lines(&plan);
    assert!(count(&lines, "genie binary") >= 1);
    assert_eq!(plan.len(), 5);
    assert!(count(&lines, "fetch (") >= 2);
    assert_eq!(count(&lines, "model:"), 1);
    assert_eq!(lines[1], "  [fetch (1 bytes)] genie binary (x86_64-linux-gnu) \u{2014} the CLI");
    assert_eq!(lines[4], "  [fetch (4 bytes)] model: e4b \u{2014} chosen by RAM (8 GB); the other variant is NOT fetched");
    assert_eq!(plan[3].artifact.as_ref().map(|a| a.url.as_str()), Some("https://x/e4b"));
    assert_eq!(plan[4].artifact.as_ref().map(|a| a.size), Some(5));
}

#[test]
fn missing_prebuilt_and_gpu_backend() {
    let e = linux_env(8, Some("cuda"), true);
    let mut m = test_manifest("aarch64-linux-gnu");
    m.components.gpu = vec![("x86_64-linux-gnu-cuda".to_string(), art("https://x/cuda", 9))];
    let plan = build_plan(&e, &Some(m));
    assert!(plan[0].artifact.is_none());
    assert_eq!(plan[0].note, "no prebuilt for this target \u{2014} would fall back to a source build");
    assert_eq!(plan[2].name, "GPU backend (cuda)");
    assert_eq!(plan[2].artifact.as_ref().map(|a| a.url.as_str()), Some("https://x/cuda"));
    assert_eq!(plan[2].note, "only because a GPU was detected");
}

#[test]
fn table_lookup() {
    let t = vec![("a".to_string(), art("u1", 1)), ("b".to_string(), art("u2", 2))];
    assert_eq!(find_artifact(&t, "b").map(|a| a.url), Some("u2".to_string()));
    assert!(find_artifact(&t, "c").is_none());
}

#[test]
fn table_insert_is_a_map_insert() {
    let mut t: Vec<(String, Artifact)> = Vec::new();
    table_insert(&mut t, "a".into(), art("u1", 1));
    table_insert(&mut t, "b".into(), art("u2", 2));
    table_insert(&mut t, "a".into(), art("u3", 3));
    assert_eq!(t.len(), 2);
    assert_eq!(find_artifact(&t, "a").map(|a| (a.url, a.size)), Some(("u3".to_string(), 3)));
    assert_eq!(find_artifact(&t, "b").map(|a| a.url), Some("u2".to_string()));
}

#[test]
fn option_values() {
    let args: Vec<String> = vec!["--install".into(), "--manifest".into(), "m.json".into(), "--bin-dir=/b".into()];
    assert_eq!(arg_value(&args, "--manifest"), Some("m.json".to_string()));
    assert_eq!(arg_value(&args, "--bin-dir"), Some("/b".to_string()));
    assert_eq!(arg_value(&args, "--other"), None);
    let dangling: Vec<String> = vec!["--manifest".into()];
    assert_eq!(arg_value(&dangling, "--manifest"), None);
    assert!(has_flag(&args, "--install"));
    assert!(!has_flag(&args, "--yes"));
}

#[test]
fn install_needs_a_manifest() {
    assert!(matches!(install_step(false, false), Ok(InstallStep::DryRun)));
    assert!(matches!(install_step(true, true), Ok(InstallStep::Fetch)));
    assert!(matches!(install_step(true, false), Err(ref e) if e == "--install requires --manifest <url|file>"));
    assert!(is_remote_source("https://host/m.json"));
    assert!(is_remote_source("http://host/m.json"));
    assert!(!is_remote_source("/tmp/m.json"));
}

#[test]
fn hex_is_lowercase_two_digits_per_byte() {
    assert_eq!(hex(&[0x00, 0x0f, 0xab, 0xff]), "000fabff");
    assert_eq!(hex(&[]), "");
}

#[test]
fn digest_checks() {
    // SHA-256 of "abc".
    let want = "BA7816BF8F01CFEA414140DE5DAE2223B00361A396177A9CB410FF61F20015AD";
    let ok = Artifact { url: "https://x/a".into(), sha256: want.into(), size: 3 };
    assert_eq!(verify_download(&ok, b"abc"), Ok(()));
    let bad = Artifact { url: "https://x/a".into(), sha256: "00".into(), size: 3 };
    assert_eq!(
        verify_download(&bad, b"abc"),
        Err("sha256 mismatch for https://x/a: expected 00, got ba7816bf8f01cfea414140de5dae2223b00361a396177a9cb410ff61f20015ad".to_string())
    );
    let unpublished = Artifact { url: "u".into(), sha256: String::new(), size: 0 };
    assert_eq!(verify_download(&unpublished, b"anything"), Ok(()));
    assert_eq!(check_digest(&bad, &[0x00]), Ok(()));
}

#[test]
fn placement() {
    assert_eq!(url_file_name("https://x/dl/rt.tar.gz"), "rt.tar.gz");
    assert_eq!(url_file_name("noslash"), "noslash");
    assert_eq!(url_file_name("https://x/dir/"), "");
    assert!(is_binary_item("genie binary (x86_64-linux-gnu)"));
    assert!(!is_binary_item("model: e2b"));
    assert_eq!(install_dest("genie binary (t)", "https://x/genie-t", "/b", "/c", false), "/b/genie");
    assert_eq!(install_dest("genie binary (t)", "https://x/genie-t", "/b", "/c", true), "/b/genie.exe");
    assert_eq!(install_dest("model: e2b", "https://x/e2b.litertlm", "/b", "/c", false), "/c/e2b.litertlm");
    assert_eq!(
        lib_candidates("libvulkan.so.1"),
        vec![
            "/usr/lib/libvulkan.so.1",
            "/usr/lib/x86_64-linux-gnu/libvulkan.so.1",
            "/lib/x86_64-linux-gnu/libvulkan.so.1",
            "/usr/local/lib/libvulkan.so.1",
        ]
    );
}

#[test]
fn fetch_targets_are_the_resolved_items() {
    let e = linux_env(2, None, false);
    let m = Some(test_manifest(&e.triple));
    let plan = build_plan(&e, &m);
    let t = fetch_targets(&plan, "/b", "/g/components", false);
    let got: Vec<(&str, &str, bool)> = t.iter().map(|x| (x.name.as_str(), x.dest.as_str(), x.executable)).collect();
    assert_eq!(
        got,
        vec![
            ("genie binary (x86_64-linux-gnu)", "/b/genie", true),
            ("litert-lm runtime (x86_64-linux-gnu)", "/g/components/rt", false),
            ("model: e2b", "/g/components/e2b", false),
            ("embedder (potion-retrieval-32M)", "/g/components/emb", false),
        ]
    );
    assert_eq!(t[2].artifact.size, 3);
}

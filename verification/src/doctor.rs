//! `genie doctor`: the dependency check and the live backend report. The
//! probes (which commands are on PATH, the backend cache, the GPU check) are
//! the caller's part; this module decides what to report.

use vstd::prelude::*;
use crate::numbers::{decimal_spec, format_u64};
use crate::text::{chars_of, same_text, str_to_uppercase, string_from_chars, trim, trim_spec, uppercase_of, views};

verus! {

/// `s` left-aligned in a field of `width` characters (`{:<width}`).
pub open spec fn pad_right_spec(s: Seq<char>, width: int) -> Seq<char> {
    if s.len() >= width {
        s
    } else {
        s + Seq::new((width - s.len()) as nat, |i: int| ' ')
    }
}

/// One line of the report: two spaces, the tag in a 9-wide column, a space,
/// the message.
pub open spec fn status_line_spec(tag: Seq<char>, msg: Seq<char>) -> Seq<char> {
    "  "@ + pad_right_spec(tag, 9) + " "@ + msg
}

/// Formats one line of the report.
pub fn status_line(tag: &str, msg: &str) -> (r: String)
    ensures
        r@ == status_line_spec(tag@, msg@),
{
    let cs = chars_of(tag);
    let mut v: Vec<char> = Vec::new();
    v.push(' ');
    v.push(' ');
    let mut i: usize = 0;
    while i < cs.len()
        invariant
            i <= cs.len(),
            v@ == seq![' ', ' '] + cs@.take(i as int),
        decreases cs.len() - i,
    {
        v.push(cs[i]);
        i += 1;
        assert(v@ =~= seq![' ', ' '] + cs@.take(i as int));
    }
    assert(cs@.take(i as int) =~= cs@);
    let mut k: usize = cs.len();
    while k < 9
        invariant
            cs.len() <= k <= 9 || (k == cs.len() && k >= 9),
            v@ == seq![' ', ' '] + cs@ + Seq::new((k - cs.len()) as nat, |j: int| ' '),
        decreases 9 - k,
    {
        v.push(' ');
        k += 1;
        assert(v@ =~= seq![' ', ' '] + cs@ + Seq::new((k - cs.len()) as nat, |j: int| ' '));
    }
    v.push(' ');
    let mut r = string_from_chars(&v);
    r.append(msg);
    proof {
        reveal_strlit("  ");
        reveal_strlit(" ");
        if cs.len() >= 9 {
            assert(Seq::new((k - cs.len()) as nat, |j: int| ' ') =~= Seq::<char>::empty());
        }
        assert(r@ =~= status_line_spec(tag@, msg@));
    }
    r
}

// ---------------------------------------------------------------------------
// The backend report
// ---------------------------------------------------------------------------

/// The first step of the backend report.
pub enum BackendStep {
    /// Report this backend and where the choice comes from.
    Report { backend: String, source: String },
    /// Nothing forced or cached and a probe is possible: resolve the backend
    /// now (which probes) and report it as auto-detected.
    Resolve,
    /// A GPU choice that can be checked: run the GPU check, then
    /// `report_after_check`.
    CheckGpu { source: String, forced: bool },
}

/// Where the reported backend choice comes from, and the choice itself:
/// `GENIE_BACKEND`, else the cache file's contents (trimmed), else nothing.
pub open spec fn raw_choice_spec(forced: Option<String>, cached: Option<String>) -> (Seq<char>, Seq<char>, bool) {
    match forced {
        Some(b) => (b@, "forced via GENIE_BACKEND"@, true),
        None => match cached {
            Some(s) => (trim_spec(s@), "cached"@, false),
            None => (seq![], seq![], false),
        },
    }
}

/// Decides the first step of the backend report. `cached` is the cache
/// file's contents, if it could be read; `can_probe` tells whether the
/// weights are downloaded and a runtime is available.
pub fn report_backend(forced: &Option<String>, cached: &Option<String>, can_probe: bool) -> (r:
    BackendStep)
    ensures
        ({
            let (raw, src, is_forced) = raw_choice_spec(*forced, *cached);
            if raw.len() == 0 {
                if can_probe {
                    r is Resolve
                } else {
                    r matches BackendStep::Report { backend, source } && backend@ == "unknown"@
                        && source@ == "will auto-detect on first query"@
                }
            } else if raw == "gpu"@ && can_probe {
                r matches BackendStep::CheckGpu { source, forced } && source@ == src && forced
                    == is_forced
            } else if raw == "gpu"@ {
                r matches BackendStep::Report { backend, source } && backend@ == raw && source@
                    == src + " (model not downloaded yet \u{2014} not verified)"@
            } else {
                r matches BackendStep::Report { backend, source } && backend@ == raw && source@
                    == src
            }
        }),
{
    let (raw, src, is_forced) = match forced {
        Some(b) => (b.clone(), "forced via GENIE_BACKEND".to_owned(), true),
        None => match cached {
            Some(s) => (trim(s.as_str()), "cached".to_owned(), false),
            None => (String::new(), String::new(), false),
        },
    };
    if raw.as_str().is_empty() {
        if can_probe {
            return BackendStep::Resolve;
        }
        return BackendStep::Report {
            backend: "unknown".to_owned(),
            source: "will auto-detect on first query".to_owned(),
        };
    }
    if same_text(raw.as_str(), "gpu") {
        if can_probe {
            return BackendStep::CheckGpu { source: src, forced: is_forced };
        }
        let mut s = src;
        s.append(" (model not downloaded yet \u{2014} not verified)");
        return BackendStep::Report { backend: raw, source: s };
    }
    BackendStep::Report { backend: raw, source: src }
}

/// The source reported for a backend resolved during the report.
pub fn resolved_source() -> (r: String)
    ensures
        r@ == "auto-detected just now"@,
{
    "auto-detected just now".to_owned()
}

/// The outcome of checking a GPU choice.
pub struct GpuVerdict {
    pub backend: String,
    pub source: String,
    /// Whether to record `cpu` in the backend cache.
    pub cache_cpu: bool,
}

/// After the GPU check: a working GPU is reported as verified; a forced GPU
/// that fails stays, with a warning; a cached GPU that fails falls back to
/// the CPU, which is then cached.
pub fn report_after_check(source: &str, forced: bool, gpu_ok: bool) -> (r: GpuVerdict)
    ensures
        gpu_ok ==> r.backend@ == "gpu"@ && r.source@ == source@ + ", verified working with litert-lm"@
            && !r.cache_cpu,
        !gpu_ok && forced ==> r.backend@ == "gpu"@ && r.source@
            == "forced via GENIE_BACKEND \u{2014} WARNING: GPU did not run with litert-lm"@
            && !r.cache_cpu,
        !gpu_ok && !forced ==> r.backend@ == "cpu"@ && r.source@
            == "GPU did not run with litert-lm \u{2014} fell back to CPU"@ && r.cache_cpu,
{
    if gpu_ok {
        let mut s = source.to_owned();
        s.append(", verified working with litert-lm");
        GpuVerdict { backend: "gpu".to_owned(), source: s, cache_cpu: false }
    } else if forced {
        GpuVerdict {
            backend: "gpu".to_owned(),
            source: "forced via GENIE_BACKEND \u{2014} WARNING: GPU did not run with litert-lm".to_owned(),
            cache_cpu: false,
        }
    } else {
        GpuVerdict {
            backend: "cpu".to_owned(),
            source: "GPU did not run with litert-lm \u{2014} fell back to CPU".to_owned(),
            cache_cpu: true,
        }
    }
}

// ---------------------------------------------------------------------------
// The whole report
// ---------------------------------------------------------------------------

/// What the report is made of.
pub struct DoctorFacts {
    pub version: String,
    pub litert_on_path: bool,
    pub uvx_on_path: bool,
    pub soffice_on_path: bool,
    /// The downloaded weights, if any.
    pub model_path: Option<String>,
    pub model_variant: String,
    pub backend: String,
    pub backend_source: String,
    pub total_gb: u64,
    pub genie_dir: String,
    pub hf_home: String,
}

/// The runtime line of the dependency check.
pub open spec fn runtime_line_spec(f: DoctorFacts) -> Seq<char> {
    if f.litert_on_path {
        status_line_spec("[ok]"@, "litert-lm runtime (on PATH)"@)
    } else if f.uvx_on_path {
        status_line_spec("[ok]"@, "litert-lm via uvx (binary not on PATH)"@)
    } else {
        status_line_spec("[MISSING]"@, "litert-lm runtime \u{2014} install litert-lm or uv (uvx)"@)
    }
}

/// The LibreOffice line of the dependency check.
pub open spec fn office_line_spec(f: DoctorFacts) -> Seq<char> {
    if f.soffice_on_path {
        status_line_spec("[ok]"@, "LibreOffice (soffice) \u{2014} enables DOCX/XLSX/PPTX"@)
    } else {
        status_line_spec(
            "[warn]"@,
            "LibreOffice (soffice) not found \u{2014} DOCX/XLSX/PPTX need it (PDF/images are fine)"@,
        )
    }
}

/// The model-weights line of the dependency check.
pub open spec fn model_line_spec(f: DoctorFacts) -> Seq<char> {
    match f.model_path {
        Some(p) => status_line_spec("[ok]"@, "model weights: "@ + p@),
        None => status_line_spec(
            "[warn]"@,
            "model weights for "@ + f.model_variant@
                + " not downloaded yet (will fetch on first run)"@,
        ),
    }
}

/// The lines `genie doctor` prints.
pub open spec fn doctor_report_spec(f: DoctorFacts) -> Seq<Seq<char>> {
    seq![
        "Gemma Genie "@ + f.version@ + " (rust)"@,
        seq![],
        "Dependency check:"@,
        runtime_line_spec(f),
        office_line_spec(f),
        model_line_spec(f),
        status_line_spec(
            "[info]"@,
            "compute backend: "@ + uppercase_of(f.backend@) + " ("@ + f.backend_source@ + ")"@,
        ),
        status_line_spec(
            "[info]"@,
            "default model: "@ + f.model_variant@ + " (system RAM: "@ + decimal_spec(
                f.total_gb as nat,
            ) + "GB; override with --model / GENIE_MODEL)"@,
        ),
        seq![],
        "Caches: "@ + f.genie_dir@ + " (genie data), "@ + f.hf_home@ + " (HF models)"@,
    ]
}

/// The lines of `genie doctor`.
pub fn doctor_report(f: &DoctorFacts) -> (r: Vec<String>)
    ensures
        views(r@) == doctor_report_spec(*f),
{
    let mut v: Vec<String> = Vec::new();
    let mut head = "Gemma Genie ".to_owned();
    head.append(f.version.as_str());
    head.append(" (rust)");
    v.push(head);
    v.push(String::new());
    v.push("Dependency check:".to_owned());
    if f.litert_on_path {
        v.push(status_line("[ok]", "litert-lm runtime (on PATH)"));
    } else if f.uvx_on_path {
        v.push(status_line("[ok]", "litert-lm via uvx (binary not on PATH)"));
    } else {
        v.push(status_line("[MISSING]", "litert-lm runtime \u{2014} install litert-lm or uv (uvx)"));
    }
    if f.soffice_on_path {
        v.push(status_line("[ok]", "LibreOffice (soffice) \u{2014} enables DOCX/XLSX/PPTX"));
    } else {
        v.push(
            status_line(
                "[warn]",
                "LibreOffice (soffice) not found \u{2014} DOCX/XLSX/PPTX need it (PDF/images are fine)",
            ),
        );
    }
    match &f.model_path {
        Some(p) => {
            let mut m = "model weights: ".to_owned();
            m.append(p.as_str());
            v.push(status_line("[ok]", m.as_str()));
        },
        None => {
            let mut m = "model weights for ".to_owned();
            m.append(f.model_variant.as_str());
            m.append(" not downloaded yet (will fetch on first run)");
            v.push(status_line("[warn]", m.as_str()));
        },
    }
    let mut b = "compute backend: ".to_owned();
    let up = str_to_uppercase(f.backend.as_str());
    b.append(up.as_str());
    b.append(" (");
    b.append(f.backend_source.as_str());
    b.append(")");
    v.push(status_line("[info]", b.as_str()));
    let mut d = "default model: ".to_owned();
    d.append(f.model_variant.as_str());
    d.append(" (system RAM: ");
    let gb = format_u64(f.total_gb);
    d.append(gb.as_str());
    d.append("GB; override with --model / GENIE_MODEL)");
    v.push(status_line("[info]", d.as_str()));
    v.push(String::new());
    let mut c = "Caches: ".to_owned();
    c.append(f.genie_dir.as_str());
    c.append(" (genie data), ");
    c.append(f.hf_home.as_str());
    c.append(" (HF models)");
    v.push(c);
    assert(views(v@) =~= doctor_report_spec(*f));
    v
}

} // verus!

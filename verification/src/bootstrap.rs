//! The installer: from what was detected about the machine and an optional
//! component manifest, the minimal set of components to fetch (platform
//! binary, runtime, a GPU backend only when a GPU is present, one model
//! chosen by RAM, the embedder), where each one goes, and whether what was
//! downloaded matches its published SHA-256. Probing, downloading and
//! writing files are the caller's part.

use vstd::prelude::*;
use sha2::Digest;
use crate::config::opt_view;
use crate::numbers::{decimal_spec, format_u64};
use crate::paths::{join_path, join_spec};
use crate::text::{
    chars_of, concat2, concat3, lowercase_of, same_text, starts_with_at, starts_with_spec,
    str_to_lowercase, string_from_chars, string_of_range, views,
};

verus! {

// ---------------------------------------------------------------------------
// Manifest
// ---------------------------------------------------------------------------

/// A downloadable component: where it is, its SHA-256 in hex (empty when
/// not published) and its size in bytes.
pub struct Artifact {
    pub url: String,
    pub sha256: String,
    pub size: u64,
}

impl Artifact {
    /// An equal copy.
    pub fn copy(&self) -> (r: Artifact)
        ensures
            r == *self,
    {
        Artifact { url: self.url.clone(), sha256: self.sha256.clone(), size: self.size }
    }
}

/// An equal copy of an optional artifact.
pub fn copy_artifact(a: &Option<Artifact>) -> (r: Option<Artifact>)
    ensures
        r == *a,
{
    match a {
        Some(x) => Some(x.copy()),
        None => None,
    }
}

/// The artifact filed under `key` in a table of keyed artifacts: the first
/// entry with that key.
pub open spec fn lookup(es: Seq<(String, Artifact)>, key: Seq<char>) -> Option<Artifact>
    decreases es.len(),
{
    if es.len() == 0 {
        None
    } else if es[0].0@ == key {
        Some(es[0].1)
    } else {
        lookup(es.drop_first(), key)
    }
}

/// A table of keyed artifacts is a map: no key occurs twice.
pub open spec fn keys_unique(es: Seq<(String, Artifact)>) -> bool {
    forall|i: int, j: int| 0 <= i < j < es.len() ==> #[trigger] es[i].0@ != #[trigger] es[j].0@
}

/// The component sections of a manifest. Each keyed section is a map from
/// a target (or a target and GPU API, or a model variant) to an artifact;
/// every section may be empty.
pub struct Components {
    pub binary: Vec<(String, Artifact)>,
    pub runtime: Vec<(String, Artifact)>,
    pub gpu: Vec<(String, Artifact)>,
    pub model: Vec<(String, Artifact)>,
    pub embedder: Option<Artifact>,
}

impl Components {
    /// Each keyed section holds each key at most once.
    pub open spec fn wf(&self) -> bool {
        &&& keys_unique(self.binary@)
        &&& keys_unique(self.runtime@)
        &&& keys_unique(self.gpu@)
        &&& keys_unique(self.model@)
    }
}

/// A component manifest.
pub struct Manifest {
    pub version: String,
    pub components: Components,
}

/// In a table whose keys are unique, looking a key up gives the artifact
/// stored under it.
pub proof fn law_lookup_finds_entry(es: Seq<(String, Artifact)>, i: int)
    requires
        keys_unique(es),
        0 <= i < es.len(),
    ensures
        lookup(es, es[i].0@) == Some(es[i].1),
    decreases es.len(),
{
    if i > 0 {
        let rest = es.drop_first();
        assert forall|a: int, b: int| 0 <= a < b < rest.len() implies #[trigger] rest[a].0@
            != #[trigger] rest[b].0@ by {
            assert(rest[a] == es[a + 1]);
            assert(rest[b] == es[b + 1]);
        }
        assert(es[0].0@ != es[i].0@);
        law_lookup_finds_entry(rest, i - 1);
        assert(rest[i - 1] == es[i]);
    }
}

proof fn lemma_lookup_push(es: Seq<(String, Artifact)>, x: (String, Artifact), k: Seq<char>)
    requires
        k != x.0@,
    ensures
        lookup(es.push(x), k) == lookup(es, k),
    decreases es.len(),
{
    if es.len() > 0 {
        assert(es.push(x).drop_first() =~= es.drop_first().push(x));
        assert(es.push(x)[0] == es[0]);
        lemma_lookup_push(es.drop_first(), x, k);
        assert(lookup(es.drop_first().push(x), k) == lookup(es.drop_first(), k));
    } else {
        assert(es.push(x)[0] == x);
        assert(es.push(x).drop_first() =~= Seq::<(String, Artifact)>::empty());
        assert(lookup(es.push(x).drop_first(), k) is None);
        assert(lookup(es.push(x), k) == lookup(es.push(x).drop_first(), k));
    }
}

proof fn lemma_lookup_update(es: Seq<(String, Artifact)>, i: int, x: (String, Artifact), k: Seq<char>)
    requires
        0 <= i < es.len(),
        es[i].0@ == x.0@,
        k != x.0@,
    ensures
        lookup(es.update(i, x), k) == lookup(es, k),
    decreases es.len(),
{
    if i > 0 {
        assert(es.update(i, x).drop_first() =~= es.drop_first().update(i - 1, x));
        lemma_lookup_update(es.drop_first(), i - 1, x, k);
    } else {
        assert(es.update(i, x).drop_first() =~= es.drop_first());
    }
}

/// Files `a` under `key` in a table (`BTreeMap::insert`): an entry with
/// that key is replaced, otherwise one is added. Keys stay unique; the key
/// now gives `a` and every other key gives what it gave before.
pub fn table_insert(t: &mut Vec<(String, Artifact)>, key: String, a: Artifact)
    requires
        keys_unique(old(t)@),
    ensures
        keys_unique(final(t)@),
        lookup(final(t)@, key@) == Some(a),
        forall|k: Seq<char>| k != key@ ==> lookup(final(t)@, k) == lookup(old(t)@, k),
{
    let ghost before = t@;
    assert(before == old(t)@);
    let mut i: usize = 0;
    while i < t.len()
        invariant
            0 <= i <= t.len(),
            before == old(t)@,
            t@ == before,
            keys_unique(before),
            forall|j: int| 0 <= j < i ==> before[j].0@ != key@,
        decreases t.len() - i,
    {
        if same_text(t[i].0.as_str(), key.as_str()) {
            let ghost x = (key, a);
            t.set(i, (key, a));
            proof {
                assert(t@ == before.update(i as int, x));
                assert forall|p: int, q: int| 0 <= p < q < t@.len() implies #[trigger] t@[p].0@
                    != #[trigger] t@[q].0@ by {
                    assert(before[p].0@ != before[q].0@);
                }
                law_lookup_finds_entry(t@, i as int);
                assert forall|k: Seq<char>| k != key@ implies lookup(t@, k) == lookup(before, k) by {
                    lemma_lookup_update(before, i as int, x, k);
                }
            }
            return;
        }
        i += 1;
    }
    let ghost x = (key, a);
    t.push((key, a));
    proof {
        assert(t@ == before.push(x));
        assert forall|p: int, q: int| 0 <= p < q < t@.len() implies #[trigger] t@[p].0@
            != #[trigger] t@[q].0@ by {
            if q < before.len() {
                assert(before[p].0@ != before[q].0@);
            } else {
                assert(t@[p] == before[p]);
            }
        }
        law_lookup_finds_entry(t@, before.len() as int);
        assert forall|k: Seq<char>| k != key@ implies lookup(t@, k) == lookup(before, k) by {
            lemma_lookup_push(before, x, k);
        }
    }
}

/// The artifact filed under `key`.
pub fn find_artifact(es: &Vec<(String, Artifact)>, key: &str) -> (r: Option<Artifact>)
    ensures
        r == lookup(es@, key@),
{
    let mut i: usize = 0;
    assert(es@.skip(0) =~= es@);
    while i < es.len()
        invariant
            0 <= i <= es.len(),
            lookup(es@.skip(i as int), key@) == lookup(es@, key@),
        decreases es.len() - i,
    {
        proof {
            assert(es@.skip(i as int).drop_first() =~= es@.skip(i + 1));
            assert(es@.skip(i as int)[0] == es@[i as int]);
        }
        if same_text(es[i].0.as_str(), key) {
            return Some(es[i].1.copy());
        }
        i += 1;
    }
    proof {
        assert(es@.skip(i as int) =~= Seq::<(String, Artifact)>::empty());
    }
    None
}

// ---------------------------------------------------------------------------
// Environment
// ---------------------------------------------------------------------------

/// What was detected about the machine, and what follows from it.
pub struct Env {
    pub os: String,
    pub arch: String,
    pub libc: Option<String>,
    pub triple: String,
    pub gpu: Option<String>,
    pub ram_gb: u64,
    pub model: String,
    pub soffice: bool,
    pub genie_dir: String,
    pub genie_dir_exists: bool,
}

/// The C library of the target: on Linux `musl` or `gnu`, elsewhere none.
pub open spec fn libc_spec(os: Seq<char>, musl: bool) -> Option<Seq<char>> {
    if os == "linux"@ {
        Some(if musl { "musl"@ } else { "gnu"@ })
    } else {
        None
    }
}

/// The target name: `{arch}-{os}-{libc}`, or `{arch}-{os}` without a libc.
pub open spec fn triple_spec(arch: Seq<char>, os: Seq<char>, libc: Option<Seq<char>>) -> Seq<
    char,
> {
    match libc {
        Some(l) => arch + "-"@ + os + "-"@ + l,
        None => arch + "-"@ + os,
    }
}

/// The model variant for the machine's RAM: `e4b` from 6 GB up, else `e2b`.
pub open spec fn model_for_ram(ram_gb: u64) -> Seq<char> {
    if ram_gb >= 6 {
        "e4b"@
    } else {
        "e2b"@
    }
}

/// The environment from what was probed: OS and architecture names (as
/// `std::env::consts` gives them), whether the target links musl, the
/// detected GPU API, RAM in GB, whether `soffice` is on the path, and the
/// genie directory and whether it exists.
pub fn probe_env(
    os: &str,
    arch: &str,
    musl: bool,
    gpu: Option<String>,
    ram_gb: u64,
    soffice: bool,
    genie_dir: String,
    genie_dir_exists: bool,
) -> (e: Env)
    ensures
        e.os@ == os@,
        e.arch@ == arch@,
        opt_view(e.libc) == libc_spec(os@, musl),
        e.triple@ == triple_spec(arch@, os@, libc_spec(os@, musl)),
        e.gpu == gpu,
        e.ram_gb == ram_gb,
        e.model@ == model_for_ram(ram_gb),
        e.soffice == soffice,
        e.genie_dir == genie_dir,
        e.genie_dir_exists == genie_dir_exists,
{
    let libc: Option<String> = if same_text(os, "linux") {
        if musl {
            Some("musl".to_owned())
        } else {
            Some("gnu".to_owned())
        }
    } else {
        None
    };
    let mut triple = concat3(arch, "-", os);
    match &libc {
        Some(l) => {
            triple.append("-");
            triple.append(l.as_str());
        },
        None => {},
    }
    let model = if ram_gb >= 6 {
        "e4b".to_owned()
    } else {
        "e2b".to_owned()
    };
    Env {
        os: os.to_owned(),
        arch: arch.to_owned(),
        libc,
        triple,
        gpu,
        ram_gb,
        model,
        soffice,
        genie_dir,
        genie_dir_exists,
    }
}

/// The facts GPU detection goes by on Linux: NVIDIA's driver directory or
/// device node or `nvidia-smi` on the path; Vulkan's ICD directory, its
/// loader library or `vulkaninfo` on the path; a DRI device directory.
pub struct GpuProbe {
    pub nvidia_driver: bool,
    pub nvidia_device: bool,
    pub nvidia_smi: bool,
    pub vulkan_icd: bool,
    pub vulkan_lib: bool,
    pub vulkaninfo: bool,
    pub dri: bool,
}

/// The likely GPU API: Metal on macOS, DirectML on Windows; on Linux CUDA
/// when any NVIDIA sign is present, else Vulkan when Vulkan or a DRI device
/// is present, else none.
pub open spec fn detect_gpu_spec(os: Seq<char>, p: GpuProbe) -> Option<Seq<char>> {
    if os == "macos"@ {
        Some("metal"@)
    } else if os == "linux"@ {
        if p.nvidia_driver || p.nvidia_device || p.nvidia_smi {
            Some("cuda"@)
        } else if p.vulkan_icd || p.vulkan_lib || p.vulkaninfo || p.dri {
            Some("vulkan"@)
        } else {
            None
        }
    } else if os == "windows"@ {
        Some("directml"@)
    } else {
        None
    }
}

/// Best-effort GPU API detection from the probed facts.
pub fn detect_gpu(os: &str, p: &GpuProbe) -> (r: Option<String>)
    ensures
        opt_view(r) == detect_gpu_spec(os@, *p),
{
    if same_text(os, "macos") {
        Some("metal".to_owned())
    } else if same_text(os, "linux") {
        if p.nvidia_driver || p.nvidia_device || p.nvidia_smi {
            Some("cuda".to_owned())
        } else if p.vulkan_icd || p.vulkan_lib || p.vulkaninfo || p.dri {
            Some("vulkan".to_owned())
        } else {
            None
        }
    } else if same_text(os, "windows") {
        Some("directml".to_owned())
    } else {
        None
    }
}

/// Where a shared library called `name` is looked for.
pub open spec fn lib_candidates_spec(name: Seq<char>) -> Seq<Seq<char>> {
    seq![
        join_spec("/usr/lib"@, name),
        join_spec("/usr/lib/x86_64-linux-gnu"@, name),
        join_spec("/lib/x86_64-linux-gnu"@, name),
        join_spec("/usr/local/lib"@, name),
    ]
}

/// The paths at which a shared library called `name` may be installed.
pub fn lib_candidates(name: &str) -> (r: Vec<String>)
    ensures
        views(r@) == lib_candidates_spec(name@),
{
    let mut r: Vec<String> = Vec::new();
    r.push(join_path("/usr/lib", name));
    r.push(join_path("/usr/lib/x86_64-linux-gnu", name));
    r.push(join_path("/lib/x86_64-linux-gnu", name));
    r.push(join_path("/usr/local/lib", name));
    proof {
        assert(views(r@) =~= lib_candidates_spec(name@));
    }
    r
}

// ---------------------------------------------------------------------------
// Plan
// ---------------------------------------------------------------------------

/// One line of the plan: a component, the artifact to fetch for it (none
/// when the manifest has none or there is no manifest), and why.
pub struct PlanItem {
    pub name: String,
    pub artifact: Option<Artifact>,
    pub note: String,
}

/// A plan item as plain values.
pub open spec fn item_view(p: PlanItem) -> (Seq<char>, Option<Artifact>, Seq<char>) {
    (p.name@, p.artifact, p.note@)
}

/// The platform binary for `key` in the manifest, if any.
pub open spec fn binary_for(m: Option<Manifest>, key: Seq<char>) -> Option<Artifact> {
    match m {
        Some(m) => lookup(m.components.binary@, key),
        None => None,
    }
}

/// The runtime library for `key` in the manifest, if any.
pub open spec fn runtime_for(m: Option<Manifest>, key: Seq<char>) -> Option<Artifact> {
    match m {
        Some(m) => lookup(m.components.runtime@, key),
        None => None,
    }
}

/// The GPU backend for `key` in the manifest, if any.
pub open spec fn gpu_for(m: Option<Manifest>, key: Seq<char>) -> Option<Artifact> {
    match m {
        Some(m) => lookup(m.components.gpu@, key),
        None => None,
    }
}

/// The model variant `key` in the manifest, if any.
pub open spec fn model_for(m: Option<Manifest>, key: Seq<char>) -> Option<Artifact> {
    match m {
        Some(m) => lookup(m.components.model@, key),
        None => None,
    }
}

/// The embedder in the manifest, if any.
pub open spec fn embedder_of(m: Option<Manifest>) -> Option<Artifact> {
    match m {
        Some(m) => m.components.embedder,
        None => None,
    }
}

/// The plan item for the GPU backend.
pub open spec fn gpu_item(env: Env, m: Option<Manifest>) -> (Seq<char>, Option<Artifact>, Seq<char>) {
    match env.gpu {
        Some(api) => (
            "GPU backend ("@ + api@ + ")"@,
            gpu_for(m, env.triple@ + "-"@ + api@),
            "only because a GPU was detected"@,
        ),
        None => ("GPU backend"@, None, "skipped \u{2014} no GPU detected (CPU only)"@),
    }
}

/// The component plan, in order: the platform binary and the runtime for
/// the target, the GPU backend (fetched only when a GPU was detected), the
/// one model variant the RAM calls for, the embedder, and a LibreOffice
/// hint when `soffice` is missing. Artifacts come from the manifest.
pub open spec fn plan_spec(env: Env, m: Option<Manifest>) -> Seq<(Seq<char>, Option<Artifact>, Seq<char>)> {
    let t = env.triple@;
    let bin = binary_for(m, t);
    let base = seq![
        (
            "genie binary ("@ + t + ")"@,
            bin,
            if m is Some && bin is None {
                "no prebuilt for this target \u{2014} would fall back to a source build"@
            } else {
                "the CLI"@
            },
        ),
        ("litert-lm runtime ("@ + t + ")"@, runtime_for(m, t), "inference engine"@),
        gpu_item(env, m),
        (
            "model: "@ + env.model@,
            model_for(m, env.model@),
            "chosen by RAM ("@ + decimal_spec(env.ram_gb as nat)
                + " GB); the other variant is NOT fetched"@,
        ),
        ("embedder (potion-retrieval-32M)"@, embedder_of(m), "small; always needed for RAG"@),
    ];
    if env.soffice {
        base
    } else {
        base.push(
            (
                "LibreOffice (soffice)"@,
                None,
                "missing \u{2014} install hint only (DOCX/XLSX/PPTX)"@,
            ),
        )
    }
}

fn find_in(m: &Option<Manifest>, section: u8, key: &str) -> (r: Option<Artifact>)
    requires
        section < 4,
    ensures
        section == 0 ==> r == binary_for(*m, key@),
        section == 1 ==> r == runtime_for(*m, key@),
        section == 2 ==> r == gpu_for(*m, key@),
        section == 3 ==> r == model_for(*m, key@),
{
    match m {
        Some(m) => {
            if section == 0 {
                find_artifact(&m.components.binary, key)
            } else if section == 1 {
                find_artifact(&m.components.runtime, key)
            } else if section == 2 {
                find_artifact(&m.components.gpu, key)
            } else {
                find_artifact(&m.components.model, key)
            }
        },
        None => None,
    }
}

/// The minimal component plan for `env`, with artifacts resolved from the
/// manifest when one was given.
pub fn build_plan(env: &Env, manifest: &Option<Manifest>) -> (r: Vec<PlanItem>)
    ensures
        r@.map_values(|p: PlanItem| item_view(p)) == plan_spec(*env, *manifest),
{
    let mut plan: Vec<PlanItem> = Vec::new();
    let t = env.triple.as_str();

    let bin = find_in(manifest, 0, t);
    let bin_note = if manifest.is_some() && bin.is_none() {
        "no prebuilt for this target \u{2014} would fall back to a source build".to_owned()
    } else {
        "the CLI".to_owned()
    };
    plan.push(PlanItem { name: concat3("genie binary (", t, ")"), artifact: bin, note: bin_note });

    let rt = find_in(manifest, 1, t);
    plan.push(
        PlanItem {
            name: concat3("litert-lm runtime (", t, ")"),
            artifact: rt,
            note: "inference engine".to_owned(),
        },
    );

    match &env.gpu {
        Some(api) => {
            let key = concat3(t, "-", api.as_str());
            let g = find_in(manifest, 2, key.as_str());
            plan.push(
                PlanItem {
                    name: concat3("GPU backend (", api.as_str(), ")"),
                    artifact: g,
                    note: "only because a GPU was detected".to_owned(),
                },
            );
        },
        None => {
            plan.push(
                PlanItem {
                    name: "GPU backend".to_owned(),
                    artifact: None,
                    note: "skipped \u{2014} no GPU detected (CPU only)".to_owned(),
                },
            );
        },
    }

    let model = find_in(manifest, 3, env.model.as_str());
    let ram = format_u64(env.ram_gb);
    plan.push(
        PlanItem {
            name: concat2("model: ", env.model.as_str()),
            artifact: model,
            note: concat3("chosen by RAM (", ram.as_str(), " GB); the other variant is NOT fetched"),
        },
    );

    let emb = match manifest {
        Some(m) => copy_artifact(&m.components.embedder),
        None => None,
    };
    plan.push(
        PlanItem {
            name: "embedder (potion-retrieval-32M)".to_owned(),
            artifact: emb,
            note: "small; always needed for RAG".to_owned(),
        },
    );

    if !env.soffice {
        plan.push(
            PlanItem {
                name: "LibreOffice (soffice)".to_owned(),
                artifact: None,
                note: "missing \u{2014} install hint only (DOCX/XLSX/PPTX)".to_owned(),
            },
        );
    }
    proof {
        assert(plan@.map_values(|p: PlanItem| item_view(p)) =~= plan_spec(*env, *manifest));
    }
    plan
}

/// Whether a plan item is the model.
pub open spec fn is_model_item(it: (Seq<char>, Option<Artifact>, Seq<char>)) -> bool {
    starts_with_spec(it.0, "model:"@)
}

/// How many items of a plan are models.
pub open spec fn count_model_items(s: Seq<(Seq<char>, Option<Artifact>, Seq<char>)>) -> nat
    decreases s.len(),
{
    if s.len() == 0 {
        0
    } else {
        count_model_items(s.drop_last()) + if is_model_item(s.last()) {
            1nat
        } else {
            0nat
        }
    }
}

proof fn lemma_not_model(name: Seq<char>, first: char)
    requires
        name.len() > 0,
        name[0] == first,
        first != 'm',
    ensures
        !starts_with_spec(name, "model:"@),
{
    reveal_strlit("model:");
    if starts_with_spec(name, "model:"@) {
        assert(name.subrange(0, 6)[0] == name[0]);
    }
}

/// Exactly one model variant is ever planned, whatever the environment and
/// the manifest.
pub proof fn law_one_model_planned(env: Env, m: Option<Manifest>)
    ensures
        count_model_items(plan_spec(env, m)) == 1,
{
    reveal_strlit("genie binary (");
    reveal_strlit("litert-lm runtime (");
    reveal_strlit("GPU backend (");
    reveal_strlit("GPU backend");
    reveal_strlit("model: ");
    reveal_strlit("model:");
    reveal_strlit("embedder (potion-retrieval-32M)");
    reveal_strlit("LibreOffice (soffice)");
    let p = plan_spec(env, m);
    let t = env.triple@;
    lemma_not_model("genie binary ("@ + t + ")"@, 'g');
    lemma_not_model("litert-lm runtime ("@ + t + ")"@, 'l');
    lemma_not_model(gpu_item(env, m).0, 'G');
    lemma_not_model("embedder (potion-retrieval-32M)"@, 'e');
    lemma_not_model("LibreOffice (soffice)"@, 'L');
    let mn = "model: "@ + env.model@;
    assert(mn.subrange(0, 6) =~= "model:"@);
    assert(is_model_item(p[3]));
    let base = p.take(5);
    let b1 = base.take(1);
    let b2 = base.take(2);
    let b3 = base.take(3);
    let b4 = base.take(4);
    assert(b1.drop_last() =~= Seq::<(Seq<char>, Option<Artifact>, Seq<char>)>::empty());
    assert(b1.last() == p[0]);
    assert(p[0].0 == "genie binary ("@ + t + ")"@);
    assert(!is_model_item(b1.last()));
    assert(count_model_items(b1.drop_last()) == 0);
    assert(count_model_items(b1) == 0);
    assert(b2.drop_last() =~= b1);
    assert(count_model_items(b2) == 0);
    assert(b3.drop_last() =~= b2);
    assert(count_model_items(b3) == 0);
    assert(b4.drop_last() =~= b3);
    assert(count_model_items(b4) == 1);
    assert(base.drop_last() =~= b4);
    assert(count_model_items(base) == 1);
    if env.soffice {
        assert(p =~= base);
    } else {
        assert(p.drop_last() =~= base);
    }
}

/// A GPU backend is fetched only when a GPU was detected.
pub proof fn law_gpu_backend_needs_gpu(env: Env, m: Option<Manifest>, i: int)
    requires
        0 <= i < plan_spec(env, m).len(),
        starts_with_spec(plan_spec(env, m)[i].0, "GPU backend"@),
        plan_spec(env, m)[i].1 is Some,
    ensures
        env.gpu is Some,
{
    reveal_strlit("genie binary (");
    reveal_strlit("litert-lm runtime (");
    reveal_strlit("GPU backend");
    reveal_strlit("model: ");
    reveal_strlit("embedder (potion-retrieval-32M)");
    reveal_strlit("LibreOffice (soffice)");
    let p = plan_spec(env, m);
    assert(p[i].0.subrange(0, 11)[0] == p[i].0[0]);
    assert(("GPU backend"@)[0] == 'G');
    if i == 0 {
        assert(p[i].0[0] == 'g');
    } else if i == 1 {
        assert(p[i].0[0] == 'l');
    } else if i == 3 {
        assert(p[i].0[0] == 'm');
    } else if i == 4 {
        assert(p[i].0[0] == 'e');
    } else if i == 5 {
        assert(p[i].0[0] == 'L');
    }
}

/// With a well-formed manifest, the platform binary planned is the one the
/// manifest publishes for the machine's target.
pub proof fn law_plan_takes_published_binary(env: Env, m: Manifest, i: int)
    requires
        m.components.wf(),
        0 <= i < m.components.binary@.len(),
        m.components.binary@[i].0@ == env.triple@,
    ensures
        plan_spec(env, Some(m))[0].1 == Some(m.components.binary@[i].1),
{
    law_lookup_finds_entry(m.components.binary@, i);
}

/// Without a manifest the plan fetches nothing.
pub proof fn law_no_manifest_fetches_nothing(env: Env, i: int)
    requires
        0 <= i < plan_spec(env, None).len(),
    ensures
        plan_spec(env, None)[i].1 is None,
{
}

// ---------------------------------------------------------------------------
// Report
// ---------------------------------------------------------------------------

/// The lines describing the detected environment.
pub open spec fn env_lines_spec(e: Env) -> Seq<Seq<char>> {
    seq![
        "Gemma Genie installer \u{2014} detected environment:"@,
        "  os/arch : "@ + e.os@ + "/"@ + e.arch@ + match e.libc {
            Some(l) => " ("@ + l@ + ")"@,
            None => Seq::<char>::empty(),
        },
        "  target  : "@ + e.triple@,
        "  gpu     : "@ + match e.gpu {
            Some(g) => g@,
            None => "none (CPU)"@,
        },
        "  ram     : "@ + decimal_spec(e.ram_gb as nat) + " GB  -> model "@ + e.model@,
        "  soffice : "@ + if e.soffice {
            "present"@
        } else {
            "missing"@
        },
        "  ~/.genie: "@ + if e.genie_dir_exists {
            "exists"@
        } else {
            "new"@
        },
    ]
}

/// The report of the detected environment, one string per line.
pub fn env_lines(e: &Env) -> (r: Vec<String>)
    ensures
        views(r@) == env_lines_spec(*e),
{
    let mut r: Vec<String> = Vec::new();
    r.push("Gemma Genie installer \u{2014} detected environment:".to_owned());
    let mut l = concat3("  os/arch : ", e.os.as_str(), "/");
    l.append(e.arch.as_str());
    match &e.libc {
        Some(c) => {
            l.append(" (");
            l.append(c.as_str());
            l.append(")");
        },
        None => {},
    }
    assert(l@ =~= env_lines_spec(*e)[1]);
    r.push(l);
    r.push(concat2("  target  : ", e.triple.as_str()));
    match &e.gpu {
        Some(g) => r.push(concat2("  gpu     : ", g.as_str())),
        None => r.push(concat2("  gpu     : ", "none (CPU)")),
    }
    let ram = format_u64(e.ram_gb);
    let mut m = concat3("  ram     : ", ram.as_str(), " GB  -> model ");
    m.append(e.model.as_str());
    assert(m@ =~= env_lines_spec(*e)[4]);
    r.push(m);
    r.push(concat2("  soffice : ", if e.soffice { "present" } else { "missing" }));
    r.push(concat2("  ~/.genie: ", if e.genie_dir_exists { "exists" } else { "new" }));
    proof {
        assert(views(r@) =~= env_lines_spec(*e));
    }
    r
}

/// The mark of a plan line: the size to fetch, or `skip`.
pub open spec fn mark_spec(a: Option<Artifact>) -> Seq<char> {
    match a {
        Some(a) => "fetch ("@ + decimal_spec(a.size as nat) + " bytes)"@,
        None => "skip"@,
    }
}

/// One line of the plan report.
pub open spec fn plan_line_spec(it: (Seq<char>, Option<Artifact>, Seq<char>)) -> Seq<char> {
    "  ["@ + mark_spec(it.1) + "] "@ + it.0 + " \u{2014} "@ + it.2
}

/// The plan report: a heading, then one line per item.
pub open spec fn plan_lines_spec(plan: Seq<PlanItem>) -> Seq<Seq<char>> {
    seq!["\nComponent plan (only what this environment needs):"@] + plan.map_values(
        |p: PlanItem| plan_line_spec(item_view(p)),
    )
}

/// The report of the plan, one string per line.
pub fn plan_lines(plan: &Vec<PlanItem>) -> (r: Vec<String>)
    ensures
        views(r@) == plan_lines_spec(plan@),
{
    let mut r: Vec<String> = Vec::new();
    r.push("\nComponent plan (only what this environment needs):".to_owned());
    let mut i: usize = 0;
    while i < plan.len()
        invariant
            0 <= i <= plan.len(),
            views(r@) == seq!["\nComponent plan (only what this environment needs):"@]
                + plan@.take(i as int).map_values(|p: PlanItem| plan_line_spec(item_view(p))),
        decreases plan.len() - i,
    {
        let it = &plan[i];
        let mut line = "  [".to_owned();
        match &it.artifact {
            Some(a) => {
                let n = format_u64(a.size);
                line.append("fetch (");
                line.append(n.as_str());
                line.append(" bytes)");
            },
            None => {
                line.append("skip");
            },
        }
        line.append("] ");
        line.append(it.name.as_str());
        line.append(" \u{2014} ");
        line.append(it.note.as_str());
        let ghost before = views(r@);
        r.push(line);
        proof {
            assert(views(r@) =~= before.push(line@));
            assert(line@ =~= plan_line_spec(item_view(plan@[i as int])));
            assert(plan@.take(i + 1).map_values(|p: PlanItem| plan_line_spec(item_view(p)))
                =~= plan@.take(i as int).map_values(|p: PlanItem| plan_line_spec(item_view(p))).push(
                line@,
            ));
        }
        i += 1;
    }
    proof {
        assert(plan@.take(i as int) =~= plan@);
    }
    r
}

// ---------------------------------------------------------------------------
// Arguments
// ---------------------------------------------------------------------------

/// Whether `flag` is one of the arguments.
pub open spec fn has_flag_spec(args: Seq<Seq<char>>, flag: Seq<char>) -> bool {
    exists|i: int| 0 <= i < args.len() && #[trigger] args[i] == flag
}

/// Whether `flag` is one of the arguments.
pub fn has_flag(args: &Vec<String>, flag: &str) -> (r: bool)
    ensures
        r == has_flag_spec(views(args@), flag@),
{
    let ghost va = views(args@);
    let mut i: usize = 0;
    while i < args.len()
        invariant
            0 <= i <= args.len(),
            va == views(args@),
            forall|k: int| 0 <= k < i ==> va[k] != flag@,
        decreases args.len() - i,
    {
        if same_text(args[i].as_str(), flag) {
            assert(va[i as int] == flag@);
            return true;
        }
        i += 1;
    }
    false
}

/// The value of option `key` from argument `i` on: the argument after the
/// first one equal to `key` (none when it is the last), or what follows
/// `key=` in an argument of that form, whichever comes first.
pub open spec fn arg_value_from(args: Seq<Seq<char>>, key: Seq<char>, i: int) -> Option<Seq<char>>
    decreases args.len() - i,
{
    if i < 0 || i >= args.len() {
        None
    } else if args[i] == key {
        if i + 1 < args.len() {
            Some(args[i + 1])
        } else {
            None
        }
    } else if starts_with_spec(args[i], key + "="@) {
        Some(args[i].skip(key.len() + 1int))
    } else {
        arg_value_from(args, key, i + 1)
    }
}

/// The value given to option `key`, as `--key value` or `--key=value`.
pub fn arg_value(args: &Vec<String>, key: &str) -> (r: Option<String>)
    ensures
        opt_view(r) == arg_value_from(views(args@), key@, 0),
{
    let ghost va = views(args@);
    let kq = concat2(key, "=");
    let kc = chars_of(kq.as_str());
    proof {
        reveal_strlit("=");
    }
    let mut i: usize = 0;
    while i < args.len()
        invariant
            0 <= i <= args.len(),
            va == views(args@),
            kc@ == key@ + "="@,
            "="@.len() == 1,
            arg_value_from(va, key@, i as int) == arg_value_from(va, key@, 0),
        decreases args.len() - i,
    {
        assert(va[i as int] == args@[i as int]@);
        if same_text(args[i].as_str(), key) {
            if i + 1 < args.len() {
                assert(va[i + 1] == args@[i + 1]@);
                return Some(args[i + 1].clone());
            } else {
                return None;
            }
        }
        let cs = chars_of(args[i].as_str());
        proof {
            assert(cs@.skip(0) =~= cs@);
        }
        if starts_with_at(&cs, 0, &kc) {
            let v = string_of_range(&cs, kc.len(), cs.len());
            proof {
                assert(v@ =~= va[i as int].skip(key@.len() + 1int));
            }
            return Some(v);
        }
        i += 1;
    }
    None
}

/// Whether a manifest source is a URL rather than a file.
pub open spec fn is_remote_spec(src: Seq<char>) -> bool {
    starts_with_spec(src, "http://"@) || starts_with_spec(src, "https://"@)
}

/// Whether a manifest source is fetched over HTTP(S) rather than read from
/// a file.
pub fn is_remote_source(src: &str) -> (r: bool)
    ensures
        r == is_remote_spec(src@),
{
    crate::text::starts_with(src, "http://") || crate::text::starts_with(src, "https://")
}

/// What a run does after the plan.
pub enum InstallStep {
    /// Report only.
    DryRun,
    /// Fetch the planned artifacts.
    Fetch,
}

/// After the plan: a dry run unless `--install` was given; installing
/// needs a manifest.
pub fn install_step(install: bool, has_manifest: bool) -> (r: Result<InstallStep, String>)
    ensures
        !install ==> (r matches Ok(s) && s is DryRun),
        install && has_manifest ==> (r matches Ok(s) && s is Fetch),
        install && !has_manifest ==> (r matches Err(e) && e@
            == "--install requires --manifest <url|file>"@),
{
    if !install {
        Ok(InstallStep::DryRun)
    } else if !has_manifest {
        Err("--install requires --manifest <url|file>".to_owned())
    } else {
        Ok(InstallStep::Fetch)
    }
}

// ---------------------------------------------------------------------------
// Digests
// ---------------------------------------------------------------------------

/// The SHA-256 digest of `data`, as the `sha2` crate computes it.
pub uninterp spec fn sha256_of(data: Seq<u8>) -> Seq<u8>;

/// Calls `sha2::Sha256::digest`. Claims only that the digest is a fixed
/// function of the data (named `sha256_of`); SHA-256 itself is not restated.
#[verifier::external_body]
fn sha256_digest(data: &[u8]) -> (r: Vec<u8>)
    ensures
        r@ == sha256_of(data@),
{
    sha2::Sha256::digest(data).to_vec()
}

/// The lowercase hexadecimal digit for `n` (below 16).
pub open spec fn hex_digit(n: int) -> char {
    if n < 10 {
        (n + '0' as int) as char
    } else {
        (n - 10 + 'a' as int) as char
    }
}

/// `bytes` in lowercase hexadecimal, two digits per byte (`{:02x}` each).
pub open spec fn hex_spec(bytes: Seq<u8>) -> Seq<char>
    decreases bytes.len(),
{
    if bytes.len() == 0 {
        seq![]
    } else {
        hex_spec(bytes.drop_last()) + seq![
            hex_digit(bytes.last() as int / 16),
            hex_digit(bytes.last() as int % 16),
        ]
    }
}

fn hex_char(n: u8) -> (c: char)
    requires
        n < 16,
    ensures
        c == hex_digit(n as int),
{
    if n < 10 {
        (n + 48) as char
    } else {
        (n + 87) as char
    }
}

/// `bytes` in lowercase hexadecimal.
pub fn hex(bytes: &[u8]) -> (r: String)
    ensures
        r@ == hex_spec(bytes@),
{
    let mut cs: Vec<char> = Vec::new();
    let mut i: usize = 0;
    while i < bytes.len()
        invariant
            0 <= i <= bytes.len(),
            cs@ == hex_spec(bytes@.take(i as int)),
        decreases bytes.len() - i,
    {
        let b = bytes[i];
        cs.push(hex_char(b / 16));
        cs.push(hex_char(b % 16));
        proof {
            assert(bytes@.take(i + 1).drop_last() =~= bytes@.take(i as int));
            assert(bytes@.take(i + 1).last() == b);
        }
        i += 1;
    }
    proof {
        assert(bytes@.take(i as int) =~= bytes@);
    }
    string_from_chars(&cs)
}

/// The error for a download of `url` with digest `digest` when `expected`
/// (the published SHA-256) is not empty and, lowercased, is not the hex of
/// the digest; none when it matches or nothing was published.
pub open spec fn digest_error(url: Seq<char>, expected: Seq<char>, digest: Seq<u8>) -> Option<
    Seq<char>,
> {
    let got = hex_spec(digest);
    if expected.len() > 0 && got != lowercase_of(expected) {
        Some(
            "sha256 mismatch for "@ + url + ": expected "@ + expected + ", got "@ + got,
        )
    } else {
        None
    }
}

/// Checks the digest of what was downloaded for `art` against the
/// published one.
pub fn check_digest(art: &Artifact, digest: &[u8]) -> (r: Result<(), String>)
    ensures
        match r {
            Ok(_) => digest_error(art.url@, art.sha256@, digest@) is None,
            Err(e) => digest_error(art.url@, art.sha256@, digest@) == Some(e@),
        },
{
    let got = hex(digest);
    if !art.sha256.as_str().is_empty() {
        let want = str_to_lowercase(art.sha256.as_str());
        if !same_text(got.as_str(), want.as_str()) {
            let mut e = concat3("sha256 mismatch for ", art.url.as_str(), ": expected ");
            e.append(art.sha256.as_str());
            e.append(", got ");
            e.append(got.as_str());
            return Err(e);
        }
    }
    Ok(())
}

/// Checks the bytes downloaded for `art` against its published SHA-256.
pub fn verify_download(art: &Artifact, data: &[u8]) -> (r: Result<(), String>)
    ensures
        match r {
            Ok(_) => digest_error(art.url@, art.sha256@, sha256_of(data@)) is None,
            Err(e) => digest_error(art.url@, art.sha256@, sha256_of(data@)) == Some(e@),
        },
{
    let d = sha256_digest(data);
    check_digest(art, d.as_slice())
}

// ---------------------------------------------------------------------------
// Placement
// ---------------------------------------------------------------------------

/// What follows the last `/` of `url` (all of it when there is none), as
/// `url.rsplit('/').next()` gives it.
pub open spec fn last_segment(url: Seq<char>) -> Seq<char>
    decreases url.len(),
{
    if url.len() == 0 || url.last() == '/' {
        seq![]
    } else {
        last_segment(url.drop_last()).push(url.last())
    }
}

/// The file name an artifact is stored under: the last segment of its URL.
pub fn url_file_name(url: &str) -> (r: String)
    ensures
        r@ == last_segment(url@),
{
    let cs = chars_of(url);
    let mut start: usize = 0;
    let mut i: usize = 0;
    assert(cs@.take(0) =~= Seq::<char>::empty());
    while i < cs.len()
        invariant
            0 <= start <= i <= cs.len(),
            cs@ == url@,
            last_segment(cs@.take(i as int)) == cs@.subrange(start as int, i as int),
        decreases cs.len() - i,
    {
        proof {
            assert(cs@.take(i + 1).drop_last() =~= cs@.take(i as int));
            assert(cs@.take(i + 1).last() == cs@[i as int]);
        }
        if cs[i] == '/' {
            start = i + 1;
            assert(cs@.subrange(start as int, i + 1) =~= Seq::<char>::empty());
        } else {
            assert(cs@.subrange(start as int, i as int).push(cs@[i as int]) =~= cs@.subrange(
                start as int,
                i + 1,
            ));
        }
        i += 1;
    }
    assert(cs@.take(i as int) =~= cs@);
    string_of_range(&cs, start, cs.len())
}

/// Whether a plan item is the genie binary itself.
pub open spec fn is_binary_item_spec(name: Seq<char>) -> bool {
    starts_with_spec(name, "genie binary"@)
}

/// Whether a plan item is the genie binary itself (installed into the bin
/// directory and made executable).
pub fn is_binary_item(name: &str) -> (r: bool)
    ensures
        r == is_binary_item_spec(name@),
{
    crate::text::starts_with(name, "genie binary")
}

/// Where an item is installed: the genie binary as `genie` (`genie.exe` on
/// Windows) in the bin directory, everything else under the last segment
/// of its URL in the components directory.
pub open spec fn dest_spec(
    name: Seq<char>,
    url: Seq<char>,
    bin_dir: Seq<char>,
    components_dir: Seq<char>,
    windows: bool,
) -> Seq<char> {
    if is_binary_item_spec(name) {
        join_spec(bin_dir, if windows { "genie.exe"@ } else { "genie"@ })
    } else {
        join_spec(components_dir, last_segment(url))
    }
}

/// Where the item called `name`, downloaded from `url`, is installed.
pub fn install_dest(name: &str, url: &str, bin_dir: &str, components_dir: &str, windows: bool) -> (r:
    String)
    ensures
        r@ == dest_spec(name@, url@, bin_dir@, components_dir@, windows),
{
    if is_binary_item(name) {
        join_path(bin_dir, if windows { "genie.exe" } else { "genie" })
    } else {
        let f = url_file_name(url);
        join_path(components_dir, f.as_str())
    }
}

/// A download to make: the plan item's name, its artifact, where it goes,
/// and whether it is made executable.
pub struct FetchTarget {
    pub name: String,
    pub artifact: Artifact,
    pub dest: String,
    pub executable: bool,
}

/// A fetch target as plain values.
pub open spec fn target_view(t: FetchTarget) -> (Seq<char>, Artifact, Seq<char>, bool) {
    (t.name@, t.artifact, t.dest@, t.executable)
}

/// The downloads of a plan: each item that has an artifact, in order.
pub open spec fn targets_spec(
    items: Seq<PlanItem>,
    bin_dir: Seq<char>,
    components_dir: Seq<char>,
    windows: bool,
) -> Seq<(Seq<char>, Artifact, Seq<char>, bool)>
    decreases items.len(),
{
    if items.len() == 0 {
        seq![]
    } else {
        let rest = targets_spec(items.drop_last(), bin_dir, components_dir, windows);
        let it = items.last();
        match it.artifact {
            Some(a) => rest.push(
                (
                    it.name@,
                    a,
                    dest_spec(it.name@, a.url@, bin_dir, components_dir, windows),
                    is_binary_item_spec(it.name@),
                ),
            ),
            None => rest,
        }
    }
}

/// The downloads that installing `plan` makes.
pub fn fetch_targets(plan: &Vec<PlanItem>, bin_dir: &str, components_dir: &str, windows: bool) -> (r:
    Vec<FetchTarget>)
    ensures
        r@.map_values(|t: FetchTarget| target_view(t)) == targets_spec(
            plan@,
            bin_dir@,
            components_dir@,
            windows,
        ),
{
    let mut out: Vec<FetchTarget> = Vec::new();
    let mut i: usize = 0;
    assert(plan@.take(0) =~= Seq::<PlanItem>::empty());
    while i < plan.len()
        invariant
            0 <= i <= plan.len(),
            out@.map_values(|t: FetchTarget| target_view(t)) == targets_spec(
                plan@.take(i as int),
                bin_dir@,
                components_dir@,
                windows,
            ),
        decreases plan.len() - i,
    {
        proof {
            assert(plan@.take(i + 1).drop_last() =~= plan@.take(i as int));
            assert(plan@.take(i + 1).last() == plan@[i as int]);
        }
        let it = &plan[i];
        match &it.artifact {
            Some(a) => {
                let dest = install_dest(
                    it.name.as_str(),
                    a.url.as_str(),
                    bin_dir,
                    components_dir,
                    windows,
                );
                let t = FetchTarget {
                    name: it.name.clone(),
                    artifact: a.copy(),
                    dest,
                    executable: is_binary_item(it.name.as_str()),
                };
                let ghost before = out@.map_values(|t: FetchTarget| target_view(t));
                out.push(t);
                proof {
                    assert(out@.map_values(|t: FetchTarget| target_view(t)) =~= before.push(
                        target_view(t),
                    ));
                }
            },
            None => {},
        }
        i += 1;
    }
    assert(plan@.take(i as int) =~= plan@);
    out
}

} // verus!

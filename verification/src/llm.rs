//! litert-lm invocation: the runtime's output filter, the command line of
//! each model action, and the GPU-to-CPU fallback decision. Running the
//! runtime is the caller's part.

use vstd::prelude::*;
use crate::cli::Cli;
use crate::config::Config;
use crate::text::{
    chars_of, contains_chars, contains_spec, is_blank, skip_whitespace, starts_with_at,
    starts_with_spec, trim_start_spec, views, char_is_whitespace, is_whitespace_char, same_text,
};

verus! {

/// Harmless GPU/OpenCL backend chatter to drop from the runtime's output.
pub open spec fn noise_patterns() -> Seq<Seq<char>> {
    seq![
        "maxDynamicUniformBuffersPerPipelineLayout"@,
        "maxDynamicStorageBuffersPerPipelineLayout"@,
        "Loaded OpenCL library with dlopen"@,
    ]
}

/// A line is noise when it contains one of the noise patterns.
pub open spec fn noise_spec(line: Seq<char>) -> bool {
    exists|k: int| 0 <= k < 3 && contains_spec(line, #[trigger] noise_patterns()[k])
}

/// The marker litert prints (possibly still exiting 0) when a generation
/// fails, at the start of a line after any indentation.
pub open spec fn error_marker_spec(line: Seq<char>) -> bool {
    starts_with_spec(trim_start_spec(line), "An error occurred"@)
}

/// A line is noise exactly when it mentions one of the three pieces of
/// GPU/OpenCL chatter: `maxDynamicUniformBuffersPerPipelineLayout`,
/// `maxDynamicStorageBuffersPerPipelineLayout`, or `Loaded OpenCL library
/// with dlopen`.
pub proof fn law_noise_is_gpu_chatter(line: Seq<char>)
    ensures
        noise_spec(line) <==> (contains_spec(line, "maxDynamicUniformBuffersPerPipelineLayout"@) || contains_spec(line, "maxDynamicStorageBuffersPerPipelineLayout"@)
            || contains_spec(line, "Loaded OpenCL library with dlopen"@)),
{
    let ps = noise_patterns();
    if contains_spec(line, "maxDynamicUniformBuffersPerPipelineLayout"@) {
        assert(contains_spec(line, ps[0]));
    }
    if contains_spec(line, "maxDynamicStorageBuffersPerPipelineLayout"@) {
        assert(contains_spec(line, ps[1]));
    }
    if contains_spec(line, "Loaded OpenCL library with dlopen"@) {
        assert(contains_spec(line, ps[2]));
    }
}

/// Whether `line` is backend noise to drop from the runtime's output.
pub fn is_noise(line: &str) -> (r: bool)
    ensures
        r == noise_spec(line@),
        r <==> (contains_spec(line@, "maxDynamicUniformBuffersPerPipelineLayout"@) || contains_spec(line@, "maxDynamicStorageBuffersPerPipelineLayout"@) || contains_spec(
            line@,
            "Loaded OpenCL library with dlopen"@,
        )),
{
    let cs = chars_of(line);
    let p0 = chars_of("maxDynamicUniformBuffersPerPipelineLayout");
    let p1 = chars_of("maxDynamicStorageBuffersPerPipelineLayout");
    let p2 = chars_of("Loaded OpenCL library with dlopen");
    let r = contains_chars(&cs, &p0) || contains_chars(&cs, &p1) || contains_chars(&cs, &p2);
    proof {
        let ps = noise_patterns();
        assert(ps[0] == p0@ && ps[1] == p1@ && ps[2] == p2@);
        if r {
            if contains_spec(cs@, p0@) {
                assert(contains_spec(line@, ps[0]));
            } else if contains_spec(cs@, p1@) {
                assert(contains_spec(line@, ps[1]));
            } else {
                assert(contains_spec(line@, ps[2]));
            }
        }
    }
    r
}

/// Whether `line` is litert's generation-failure marker.
pub fn is_error_marker(line: &str) -> (r: bool)
    ensures
        r == error_marker_spec(line@),
{
    let cs = chars_of(line);
    let lo = skip_whitespace(&cs, 0);
    assert(cs@.skip(0) =~= cs@);
    let marker = chars_of("An error occurred");
    starts_with_at(&cs, lo, &marker)
}

/// A single model action and its litert-lm flags.
pub enum Action {
    /// Answer a prompt.
    Ask(String),
    /// Describe the image at a path.
    Image(String),
    /// Transcribe the audio file at a path.
    Audio(String),
}

/// The flags that follow the base command for `action` on `backend`.
pub open spec fn action_args_spec(backend: Seq<char>, action: Action) -> Seq<Seq<char>> {
    match action {
        Action::Ask(prompt) => seq!["--backend="@ + backend, "--prompt"@, prompt@],
        Action::Image(path) => seq![
            "--backend="@ + backend,
            "--vision-backend="@ + backend,
            "--attachment"@,
            path@,
            "--prompt"@,
            "describe"@,
        ],
        Action::Audio(path) => seq![
            "--backend="@ + backend,
            "--audio-backend=cpu"@,
            "--attachment"@,
            path@,
            "--prompt"@,
            "transcribe"@,
        ],
    }
}

/// `prefix` followed by `value`.
/// The arguments of each action: the chosen backend first; a question
/// then `--prompt` and its text; an image runs its vision encoder on the same
/// backend and is attached with the prompt `describe`; audio is encoded on
/// the CPU and attached with the prompt `transcribe`.
pub proof fn law_action_args(backend: Seq<char>, action: Action)
    ensures
        action_args_spec(backend, action)[0] == "--backend="@ + backend,
        action matches Action::Ask(p) ==> action_args_spec(backend, action) =~= seq![
            "--backend="@ + backend,
            "--prompt"@,
            p@,
        ],
        action matches Action::Image(p) ==> action_args_spec(backend, action) =~= seq![
            "--backend="@ + backend,
            "--vision-backend="@ + backend,
            "--attachment"@,
            p@,
            "--prompt"@,
            "describe"@,
        ],
        action matches Action::Audio(p) ==> action_args_spec(backend, action) =~= seq![
            "--backend="@ + backend,
            "--audio-backend=cpu"@,
            "--attachment"@,
            p@,
            "--prompt"@,
            "transcribe"@,
        ],
{
}

/// For an image, the vision encoder runs on the backend the model runs on:
/// what follows `--vision-backend=` is what follows `--backend=`.
pub proof fn law_vision_follows_backend(backend: Seq<char>, path: String)
    ensures
        action_args_spec(backend, Action::Image(path))[1].skip(17) == action_args_spec(
            backend,
            Action::Image(path),
        )[0].skip(10),
        action_args_spec(backend, Action::Image(path))[1].take(17) == "--vision-backend="@,
        action_args_spec(backend, Action::Image(path))[0].take(10) == "--backend="@,
{
    reveal_strlit("--vision-backend=");
    reveal_strlit("--backend=");
    let a = action_args_spec(backend, Action::Image(path));
    assert(a[1].skip(17) =~= backend);
    assert(a[0].skip(10) =~= backend);
    assert(a[1].take(17) =~= "--vision-backend="@);
    assert(a[0].take(10) =~= "--backend="@);
}

fn flag(prefix: &str, value: &str) -> (r: String)
    ensures
        r@ == prefix@ + value@,
{
    let mut r = prefix.to_owned();
    r.append(value);
    r
}

/// The full litert-lm command line for `action` on `backend`, after the
/// base command `base` (from `Config::litert_base_argv`).
pub fn build_argv(base: &Vec<String>, backend: &str, action: &Action) -> (r: Vec<String>)
    ensures
        views(r@) == views(base@) + action_args_spec(backend@, *action),
        views(r@).subrange(0, base.len() as int) == views(base@),
        views(r@)[base.len() as int] == "--backend="@ + backend@,
        action matches Action::Ask(p) ==> views(r@).len() == base.len() + 3 && views(r@)[base.len()
            + 1] == "--prompt"@ && views(r@)[base.len() + 2] == p@,
        action matches Action::Image(p) ==> views(r@).len() == base.len() + 6 && views(r@)[base.len()
            + 1] == "--vision-backend="@ + backend@ && views(r@)[base.len() + 2] == "--attachment"@
            && views(r@)[base.len() + 3] == p@ && views(r@)[base.len() + 4] == "--prompt"@ && views(
            r@,
        )[base.len() + 5] == "describe"@,
        action matches Action::Audio(p) ==> views(r@).len() == base.len() + 6 && views(r@)[base.len()
            + 1] == "--audio-backend=cpu"@ && views(r@)[base.len() + 2] == "--attachment"@ && views(
            r@,
        )[base.len() + 3] == p@ && views(r@)[base.len() + 4] == "--prompt"@ && views(r@)[base.len()
            + 5] == "transcribe"@,
{
    let mut v = base.clone();
    let ghost b = views(base@);
    assert(views(v@) == b) by {
        assert(v@ =~= base@);
    }
    match action {
        Action::Ask(prompt) => {
            v.push(flag("--backend=", backend));
            v.push("--prompt".to_owned());
            v.push(prompt.clone());
        },
        Action::Image(path) => {
            v.push(flag("--backend=", backend));
            v.push(flag("--vision-backend=", backend));
            v.push("--attachment".to_owned());
            v.push(path.clone());
            v.push("--prompt".to_owned());
            v.push("describe".to_owned());
        },
        Action::Audio(path) => {
            v.push(flag("--backend=", backend));
            v.push("--audio-backend=cpu".to_owned());
            v.push("--attachment".to_owned());
            v.push(path.clone());
            v.push("--prompt".to_owned());
            v.push("transcribe".to_owned());
        },
    }
    assert(views(v@) =~= b + action_args_spec(backend@, *action));
    v
}

/// The action for describing the image at `path` (vision stays on the
/// subprocess path).
pub fn describe_image(path: &str, _cfg: &Config, _cli: &Cli) -> (r: Action)
    ensures
        r matches Action::Image(p) && p@ == path@,
{
    Action::Image(path.to_owned())
}

/// The action for transcribing the audio file at `path`.
pub fn transcribe_audio(path: &str, _cfg: &Config, _cli: &Cli) -> (r: Action)
    ensures
        r matches Action::Audio(p) && p@ == path@,
{
    Action::Audio(path.to_owned())
}

/// What to do with one line of the runtime's standard output.
pub enum OutputLine {
    /// Backend noise: drop it.
    Drop,
    /// Show it; `answer` tells whether it is part of a real answer.
    Show { answer: bool },
}

/// Classifies one line of the runtime's standard output: noise is dropped;
/// other lines are shown, and count as an answer unless blank or litert's
/// error marker.
pub fn classify_output_line(line: &str) -> (r: OutputLine)
    ensures
        noise_spec(line@) ==> r is Drop,
        !noise_spec(line@) ==> (r matches OutputLine::Show { answer } && answer == (!is_blank(
            line@,
        ) && !error_marker_spec(line@))),
{
    if is_noise(line) {
        return OutputLine::Drop;
    }
    let cs = chars_of(line);
    let lo = skip_whitespace(&cs, 0);
    assert(cs@.skip(0) =~= cs@);
    let blank = lo == cs.len();
    OutputLine::Show { answer: !blank && !is_error_marker(line) }
}

/// What to do after one run of the model.
pub enum Fallback {
    /// Nothing more.
    Done,
    /// Run again on the CPU; `cache_cpu` tells whether to record `cpu` as
    /// the backend for later runs.
    RetryOnCpu { cache_cpu: bool },
}

/// After a run on `backend`: a GPU run that produced no real answer is run
/// again once on the CPU (a successful GPU run is never re-run), and the
/// CPU choice is remembered unless the backend was forced.
pub fn after_run(backend: &str, produced: bool, forced: bool) -> (r: Fallback)
    ensures
        r matches Fallback::RetryOnCpu { cache_cpu } ==> (!produced && backend@ == "gpu"@
            && cache_cpu == !forced),
        r is Done ==> produced || backend@ != "gpu"@,
{
    if !produced && same_text(backend, "gpu") {
        Fallback::RetryOnCpu { cache_cpu: !forced }
    } else {
        Fallback::Done
    }
}

} // verus!

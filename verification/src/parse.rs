//! Document extraction routing: which files are read as plain text, which
//! need LibreOffice, and the install hint when it is missing. Reading and
//! parsing the files are the caller's part.

use vstd::prelude::*;
use crate::text::{lowercase_of, same_text, str_to_lowercase};

verus! {

/// The extension of a path, as `Path::extension` reads it.
pub uninterp spec fn path_extension(p: Seq<char>) -> Option<Seq<char>>;

/// Calls `Path::extension` (and turns it into a `String`). Claims only that
/// the result is a fixed function of the path, named `path_extension`.
#[verifier::external_body]
fn extension_of(path: &str) -> (r: Option<String>)
    ensures
        match r {
            Some(e) => path_extension(path@) == Some(e@),
            None => path_extension(path@) is None,
        },
{
    std::path::Path::new(path).extension().and_then(|e| e.to_str()).map(|e| e.to_owned())
}

/// A path's extension in lowercase, or the empty string when it has none.
pub open spec fn ext_spec(path: Seq<char>) -> Seq<char> {
    match path_extension(path) {
        Some(e) => lowercase_of(e),
        None => seq![],
    }
}

/// A path's extension in lowercase (empty when it has none).
pub fn ext_of(path: &str) -> (r: String)
    ensures
        r@ == ext_spec(path@),
{
    match extension_of(path) {
        Some(e) => str_to_lowercase(e.as_str()),
        None => String::new(),
    }
}

/// Extensions read directly as text.
pub open spec fn text_ext_spec(e: Seq<char>) -> bool {
    ||| e == "txt"@
    ||| e == "text"@
    ||| e == "csv"@
    ||| e == "tsv"@
    ||| e == "md"@
    ||| e == "markdown"@
    ||| e == "log"@
    ||| e == "json"@
    ||| e == "yaml"@
    ||| e == "yml"@
    ||| e == "rst"@
}

/// Office and ODF extensions, which need LibreOffice's `soffice`.
pub open spec fn office_ext_spec(e: Seq<char>) -> bool {
    ||| e == "docx"@
    ||| e == "doc"@
    ||| e == "xlsx"@
    ||| e == "xls"@
    ||| e == "pptx"@
    ||| e == "ppt"@
    ||| e == "odt"@
    ||| e == "ods"@
    ||| e == "odp"@
}

/// Whether `ext` is read directly as text.
pub fn is_text_ext(ext: &str) -> (r: bool)
    ensures
        r == text_ext_spec(ext@),
        r <==> (ext@ == "txt"@ || ext@ == "text"@ || ext@ == "csv"@ || ext@ == "tsv"@ || ext@ == "md"@ || ext@ == "markdown"@ || ext@ == "log"@ || ext@ == "json"@ || ext@ == "yaml"@ || ext@ == "yml"@ || ext@ == "rst"@),
{
    same_text(ext, "txt") || same_text(ext, "text") || same_text(ext, "csv") || same_text(ext, "tsv")
        || same_text(ext, "md") || same_text(ext, "markdown") || same_text(ext, "log") || same_text(
        ext,
        "json",
    ) || same_text(ext, "yaml") || same_text(ext, "yml") || same_text(ext, "rst")
}

/// Whether `ext` is an Office or ODF format.
pub fn is_office_ext(ext: &str) -> (r: bool)
    ensures
        r == office_ext_spec(ext@),
        r <==> (ext@ == "docx"@ || ext@ == "doc"@ || ext@ == "xlsx"@ || ext@ == "xls"@ || ext@ == "pptx"@ || ext@ == "ppt"@ || ext@ == "odt"@ || ext@ == "ods"@ || ext@ == "odp"@),
{
    same_text(ext, "docx") || same_text(ext, "doc") || same_text(ext, "xlsx") || same_text(ext, "xls")
        || same_text(ext, "pptx") || same_text(ext, "ppt") || same_text(ext, "odt") || same_text(
        ext,
        "ods",
    ) || same_text(ext, "odp")
}

/// Text formats are read directly: a file whose lowercased extension is
/// txt, text, csv, tsv, md, markdown, log, json, yaml, yml or rst is read as
/// text, whether or not LibreOffice is present; those are the only ones.
pub proof fn law_text_formats(e: Seq<char>)
    ensures
        text_ext_spec(e) <==> (e == "txt"@ || e == "text"@ || e == "csv"@ || e == "tsv"@ || e == "md"@ || e == "markdown"@ || e == "log"@ || e == "json"@ || e == "yaml"@ || e == "yml"@ || e == "rst"@),
        (e == "txt"@ || e == "text"@ || e == "csv"@ || e == "tsv"@ || e == "md"@ || e == "markdown"@ || e == "log"@ || e == "json"@ || e == "yaml"@ || e == "yml"@ || e == "rst"@) ==> !office_ext_spec(e),
{
    reveal_strlit("txt");
    reveal_strlit("text");
    reveal_strlit("csv");
    reveal_strlit("tsv");
    reveal_strlit("md");
    reveal_strlit("markdown");
    reveal_strlit("log");
    reveal_strlit("json");
    reveal_strlit("yaml");
    reveal_strlit("yml");
    reveal_strlit("rst");
    reveal_strlit("docx");
    reveal_strlit("doc");
    reveal_strlit("xlsx");
    reveal_strlit("xls");
    reveal_strlit("pptx");
    reveal_strlit("ppt");
    reveal_strlit("odt");
    reveal_strlit("ods");
    reveal_strlit("odp");
    if office_ext_spec(e) {
        assert(e[0] == 'd' || e[0] == 'x' || e[0] == 'p' || e[0] == 'o');
    }
    if text_ext_spec(e) {
        assert(e[0] == 't' || e[0] == 'c' || e[0] == 'm' || e[0] == 'l' || e[0] == 'j' || e[0]
            == 'y' || e[0] == 'r');
    }
}

/// Office and ODF formats need LibreOffice: docx, doc, xlsx, xls, pptx,
/// ppt, odt, ods and odp, and no others.
pub proof fn law_office_formats(e: Seq<char>)
    ensures
        office_ext_spec(e) <==> (e == "docx"@ || e == "doc"@ || e == "xlsx"@ || e == "xls"@ || e == "pptx"@ || e == "ppt"@ || e == "odt"@ || e == "ods"@ || e == "odp"@),
{
}

/// How a file is to be extracted.
pub enum Route {
    /// Read it directly as text.
    ReadText,
    /// It needs LibreOffice, which is missing: fail early with the hint.
    NeedsOffice,
    /// Hand it to the document parser.
    Parse,
}

/// Chooses how to extract the file at `path`: text formats are read
/// directly; Office formats need `soffice` (`soffice_present`); everything
/// else goes to the parser.
pub fn extract_route(path: &str, soffice_present: bool) -> (r: Route)
    ensures
        (ext_spec(path@) == "txt"@ || ext_spec(path@) == "text"@ || ext_spec(path@) == "csv"@ || ext_spec(path@) == "tsv"@ || ext_spec(path@) == "md"@ || ext_spec(path@) == "markdown"@ || ext_spec(path@) == "log"@ || ext_spec(path@) == "json"@ || ext_spec(path@) == "yaml"@ || ext_spec(path@) == "yml"@ || ext_spec(path@) == "rst"@) ==> r is ReadText,
        !(ext_spec(path@) == "txt"@ || ext_spec(path@) == "text"@ || ext_spec(path@) == "csv"@ || ext_spec(path@) == "tsv"@ || ext_spec(path@) == "md"@ || ext_spec(path@) == "markdown"@ || ext_spec(path@) == "log"@ || ext_spec(path@) == "json"@ || ext_spec(path@) == "yaml"@ || ext_spec(path@) == "yml"@ || ext_spec(path@) == "rst"@) && (ext_spec(path@) == "docx"@ || ext_spec(path@) == "doc"@ || ext_spec(path@) == "xlsx"@ || ext_spec(path@) == "xls"@ || ext_spec(path@) == "pptx"@ || ext_spec(path@) == "ppt"@ || ext_spec(path@) == "odt"@ || ext_spec(path@) == "ods"@ || ext_spec(path@) == "odp"@) && !soffice_present
            ==> r is NeedsOffice,
        text_ext_spec(ext_spec(path@)) ==> r is ReadText,
        !text_ext_spec(ext_spec(path@)) && office_ext_spec(ext_spec(path@)) && !soffice_present
            ==> r is NeedsOffice,
        !text_ext_spec(ext_spec(path@)) && !(office_ext_spec(ext_spec(path@)) && !soffice_present)
            ==> r is Parse,
{
    let ext = ext_of(path);
    if is_text_ext(ext.as_str()) {
        Route::ReadText
    } else if is_office_ext(ext.as_str()) && !soffice_present {
        Route::NeedsOffice
    } else {
        Route::Parse
    }
}

/// The install hint for Homebrew.
pub const BREW_HINT: &'static str = "brew install --cask libreoffice";
/// The install hint for apt.
pub const APT_HINT: &'static str = "sudo apt-get install -y --no-install-recommends libreoffice-core libreoffice-writer libreoffice-calc libreoffice-impress";
/// The install hint for dnf.
pub const DNF_HINT: &'static str = "sudo dnf install -y libreoffice-core libreoffice-writer libreoffice-calc libreoffice-impress";
/// The install hint for yum.
pub const YUM_HINT: &'static str = "sudo yum install -y libreoffice-core libreoffice-writer libreoffice-calc libreoffice-impress";
/// The install hint for pacman.
pub const PACMAN_HINT: &'static str = "sudo pacman -S --needed libreoffice-fresh";
/// The install hint for zypper.
pub const ZYPPER_HINT: &'static str = "sudo zypper install -y libreoffice-writer libreoffice-calc libreoffice-impress";
/// The hint when no known package manager is found.
pub const GENERIC_HINT: &'static str = "install LibreOffice (it provides the `soffice` command)";

/// The OS-aware minimal LibreOffice install hint: Homebrew on macOS, else
/// the first package manager found of apt, dnf, yum, pacman and zypper,
/// else a generic hint.
pub open spec fn install_hint_spec(
    is_macos: bool,
    apt_get: bool,
    dnf: bool,
    yum: bool,
    pacman: bool,
    zypper: bool,
) -> Seq<char> {
    if is_macos {
        BREW_HINT@
    } else if apt_get {
        APT_HINT@
    } else if dnf {
        DNF_HINT@
    } else if yum {
        YUM_HINT@
    } else if pacman {
        PACMAN_HINT@
    } else if zypper {
        ZYPPER_HINT@
    } else {
        GENERIC_HINT@
    }
}

/// The OS-aware minimal LibreOffice install hint, given whether the host
/// is macOS and which of `apt-get`, `dnf`, `yum`, `pacman` and `zypper` are
/// on the path.
pub fn libreoffice_install_cmd(
    is_macos: bool,
    has_apt_get: bool,
    has_dnf: bool,
    has_yum: bool,
    has_pacman: bool,
    has_zypper: bool,
) -> (r: &'static str)
    ensures
        r@ == install_hint_spec(is_macos, has_apt_get, has_dnf, has_yum, has_pacman, has_zypper),
{
    if is_macos {
        BREW_HINT
    } else if has_apt_get {
        APT_HINT
    } else if has_dnf {
        DNF_HINT
    } else if has_yum {
        YUM_HINT
    } else if has_pacman {
        PACMAN_HINT
    } else if has_zypper {
        ZYPPER_HINT
    } else {
        GENERIC_HINT
    }
}

/// The error for an Office file when `soffice` is missing.
pub fn needs_office_message(path: &str, install_cmd: &str) -> (r: String)
    ensures
        r@ == "parsing '"@ + path@
            + "' needs LibreOffice, but the 'soffice' command was not found.\nInstall the minimal LibreOffice components with:\n  "@
            + install_cmd@,
{
    let mut r = "parsing '".to_owned();
    r.append(path);
    r.append(
        "' needs LibreOffice, but the 'soffice' command was not found.\nInstall the minimal LibreOffice components with:\n  ",
    );
    r.append(install_cmd);
    r
}

} // verus!

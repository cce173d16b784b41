//! Decisions of the patch command: where its artifact may be written, what
//! state its result reports, and the lines of its report.

use vstd::prelude::*;
use crate::doctor::{comma_joined, join_with_commas};
use crate::messages::{lines_view, plain, push_report_line, ArgView, Line, LineView, Message};
use crate::rpc::str_eq;
use crate::text::push_str;

verus! {

/// A component of a path, as `std::path::Path::components` yields it.
pub enum PathPart {
    Prefix(String),
    Root,
    Current,
    Parent,
    Normal(String),
}

pub enum PartView {
    Prefix(Seq<char>),
    Root,
    Current,
    Parent,
    Normal(Seq<char>),
}

pub open spec fn part_view(p: PathPart) -> PartView {
    match p {
        PathPart::Prefix(t) => PartView::Prefix(t@),
        PathPart::Root => PartView::Root,
        PathPart::Current => PartView::Current,
        PathPart::Parent => PartView::Parent,
        PathPart::Normal(t) => PartView::Normal(t@),
    }
}

pub open spec fn parts_view(parts: Seq<PathPart>) -> Seq<PartView> {
    parts.map_values(|p: PathPart| part_view(p))
}

fn same_part(a: &PathPart, b: &PathPart) -> (r: bool)
    ensures
        r == (part_view(*a) == part_view(*b)),
{
    match (a, b) {
        (PathPart::Prefix(x), PathPart::Prefix(y)) => str_eq(x.as_str(), y.as_str()),
        (PathPart::Root, PathPart::Root) => true,
        (PathPart::Current, PathPart::Current) => true,
        (PathPart::Parent, PathPart::Parent) => true,
        (PathPart::Normal(x), PathPart::Normal(y)) => str_eq(x.as_str(), y.as_str()),
        _ => false,
    }
}

/// A path starts with another when the other's components begin it, as
/// `Path::starts_with` compares them.
pub open spec fn starts_with(path: Seq<PartView>, prefix: Seq<PartView>) -> bool {
    prefix.len() <= path.len() && path.subrange(0, prefix.len() as int) == prefix
}

/// The artifact of a patch must be named by text, stay clear of `..`, lie
/// outside the sources, and end in `.cfe`.
pub open spec fn output_allowed_spec(text: bool, output: Seq<PartView>, source: Seq<PartView>, extension: Option<Seq<char>>) -> bool {
    &&& text
    &&& forall|i: int| 0 <= i < output.len() ==> !(#[trigger] output[i] is Parent)
    &&& !starts_with(output, source)
    &&& extension == Some("cfe"@)
}

/// Checks where a patch artifact may be written: `text` tells whether the
/// path is valid Unicode, `extension` is the extension of its file name.
pub fn output_allowed(text: bool, output: &Vec<PathPart>, source: &Vec<PathPart>, extension: Option<&str>) -> (r: bool)
    ensures
        r == output_allowed_spec(
            text,
            parts_view(output@),
            parts_view(source@),
            match extension {
                Some(e) => Some(e@),
                None => None,
            },
        ),
{
    if !text {
        return false;
    }
    let ghost out = parts_view(output@);
    let ghost src = parts_view(source@);
    let mut i: usize = 0;
    while i < output.len()
        invariant
            i <= output@.len(),
            out == parts_view(output@),
            forall|j: int| 0 <= j < i ==> !(#[trigger] out[j] is Parent),
        decreases output.len() - i,
    {
        if let PathPart::Parent = &output[i] {
            assert(out[i as int] is Parent);
            return false;
        }
        i = i + 1;
    }
    let mut prefix = source.len() <= output.len();
    let mut k: usize = 0;
    while prefix && k < source.len()
        invariant
            k <= source@.len(),
            out == parts_view(output@),
            src == parts_view(source@),
            prefix ==> source@.len() <= output@.len(),
            prefix ==> forall|j: int| 0 <= j < k ==> #[trigger] out[j] == src[j],
            !prefix ==> !starts_with(out, src),
        decreases source.len() - k,
    {
        if !same_part(&output[k], &source[k]) {
            prefix = false;
            assert(out.subrange(0, src.len() as int)[k as int] != src[k as int]);
        }
        k = k + 1;
    }
    if prefix {
        assert(out.subrange(0, src.len() as int) =~= src);
        return false;
    }
    proof {
        reveal_strlit("cfe");
    }
    match extension {
        Some(e) => str_eq(e, "cfe"),
        None => false,
    }
}

/// The state a patch run reports: `empty` when no module changed, `planned`
/// for a dry run, and `built` otherwise.
pub fn patch_state(modules_empty: bool, dry_run: bool) -> (state: &'static str)
    ensures
        state@ == if modules_empty {
            "empty"@
        } else if dry_run {
            "planned"@
        } else {
            "built"@
        },
{
    if modules_empty {
        "empty"
    } else if dry_run {
        "planned"
    } else {
        "built"
    }
}

/// A module that the patch changes, with the methods it changes.
pub struct PatchModule {
    pub name: String,
    pub methods: Vec<String>,
}

pub open spec fn module_line_spec(m: PatchModule) -> LineView {
    LineView::Verbatim("  "@ + m.name@ + ": "@ + comma_joined(m.methods@))
}

/// The preview of a patch: the merge base and head it spans, then each
/// changed module with its methods.
pub open spec fn patch_preview_spec(base: Seq<char>, head: Seq<char>, modules: Seq<PatchModule>) -> Seq<LineView> {
    seq![
        LineView::Translated(plain("patch-preview"@).with("base"@, ArgView::Text(base)).with("head"@, ArgView::Text(head))),
    ] + modules.map_values(|m: PatchModule| module_line_spec(m))
}

/// The lines of the preview of a patch.
pub fn patch_preview(base: &str, head: &str, modules: &Vec<PatchModule>) -> (lines: Vec<Line>)
    ensures
        lines_view(lines@) == patch_preview_spec(base@, head@, modules@),
{
    let mut lines: Vec<Line> = Vec::new();
    push_report_line(&mut lines, Line::Translated(Message::new("patch-preview").text("base", base).text("head", head)));
    let ghost first = lines_view(lines@);
    let mut i: usize = 0;
    while i < modules.len()
        invariant
            i <= modules@.len(),
            lines_view(lines@) == first + modules@.subrange(0, i as int).map_values(|m: PatchModule| module_line_spec(m)),
        decreases modules.len() - i,
    {
        let module = &modules[i];
        let mut text = String::new();
        push_str(&mut text, "  ");
        push_str(&mut text, module.name.as_str());
        push_str(&mut text, ": ");
        let methods = join_with_commas(&module.methods);
        push_str(&mut text, methods.as_str());
        push_report_line(&mut lines, Line::Verbatim(text));
        assert(modules@.subrange(0, i + 1) =~= modules@.subrange(0, i as int).push(modules@[i as int]));
        i = i + 1;
    }
    assert(modules@.subrange(0, modules@.len() as int) =~= modules@);
    assert(lines_view(lines@) =~= patch_preview_spec(base@, head@, modules@));
    lines
}

/// The closing message of a patch run: `patch-` and its state, with the
/// artifact path.
pub fn patch_result_message(state: &str, output: &str) -> (m: Message)
    ensures
        m@ == plain("patch-"@ + state@).with("output"@, ArgView::Text(output@)),
{
    let mut key = String::new();
    push_str(&mut key, "patch-");
    push_str(&mut key, state);
    Message::new(key.as_str()).text("output", output)
}

/// The translation key of a failed patch run: `patch-error-` and its code.
pub fn patch_error_key(code: &str) -> (key: String)
    ensures
        key@ == "patch-error-"@ + code@,
{
    let mut key = String::new();
    push_str(&mut key, "patch-error-");
    push_str(&mut key, code);
    key
}

/// The result fields of a patch run's machine report, beside its plan.
pub struct PatchReport {
    /// `empty`, `planned` or `built`, as [`patch_state`] decides.
    pub status: &'static str,
    /// The artifact path, except when no module changed.
    pub output: Option<String>,
    /// The check that a built patch went through.
    pub validation: Option<&'static str>,
    /// A patch is never run against a live infobase here.
    pub runtime_verified: bool,
    /// Applying a patch needs the infobase's safe mode off.
    pub requires_safe_mode_disabled: bool,
}

/// The result fields of a patch run: its state; the artifact path unless
/// nothing changed; the applicability check for a built patch only; never
/// verified at run time; and safe mode must be off to apply it.
pub fn patch_report(modules_empty: bool, dry_run: bool, output: &str) -> (r: PatchReport)
    ensures
        r.status@ == (if modules_empty {
            "empty"@
        } else if dry_run {
            "planned"@
        } else {
            "built"@
        }),
        modules_empty ==> r.output is None,
        !modules_empty ==> (r.output matches Some(o) && o@ == output@),
        (!modules_empty && !dry_run) ==> (r.validation matches Some(v) && v@ == "metadata_bsl_applicability"@),
        (modules_empty || dry_run) ==> r.validation is None,
        !r.runtime_verified,
        r.requires_safe_mode_disabled,
{
    let status = patch_state(modules_empty, dry_run);
    PatchReport {
        status,
        output: if modules_empty {
            None
        } else {
            Some(output.to_owned())
        },
        validation: if !modules_empty && !dry_run {
            Some("metadata_bsl_applicability")
        } else {
            None
        },
        runtime_verified: false,
        requires_safe_mode_disabled: true,
    }
}

} // verus!

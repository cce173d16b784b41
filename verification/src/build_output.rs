//! Presentation of a build: styled tool diagnostics, status lines and the
//! link from a finished artifact to its directory.

use vstd::prelude::*;
use vstd::string::*;
use vstd::utf8::*;
use crate::encoding::{hex_char, hex_digit};
use crate::messages::{count_value, lines_view, plain, push_report_line, ArgView, Line, LineView, Message};
use crate::text::{find_text, occurs_at, push_str, starts_with};
use crate::workflow_errors::count_arg;

verus! {

/// A recognized severity prefix of a tool diagnostic and its terminal color.
pub open spec fn level_color(message: Seq<char>) -> Option<(Seq<char>, Seq<char>)> {
    if message.len() >= 7 && message.subrange(0, 7) == "[TRACE]"@ {
        Some(("[TRACE]"@, "90"@))
    } else if message.len() >= 7 && message.subrange(0, 7) == "[DEBUG]"@ {
        Some(("[DEBUG]"@, "34"@))
    } else if message.len() >= 6 && message.subrange(0, 6) == "[INFO]"@ {
        Some(("[INFO]"@, "36"@))
    } else if message.len() >= 6 && message.subrange(0, 6) == "[WARN]"@ {
        Some(("[WARN]"@, "33"@))
    } else if message.len() >= 7 && message.subrange(0, 7) == "[ERROR]"@ {
        Some(("[ERROR]"@, "31"@))
    } else if message.len() >= 7 && message.subrange(0, 7) == "[FATAL]"@ {
        Some(("[FATAL]"@, "35"@))
    } else {
        None
    }
}

pub open spec fn styled_diagnostic(message: Seq<char>, styled: bool) -> Seq<char> {
    match level_color(message) {
        Some((level, color)) => if styled {
            "\x1b[1;"@ + color + "m"@ + level + "\x1b[0m"@ + message.subrange(
                level.len() as int,
                message.len() as int,
            )
        } else {
            message
        },
        None => message,
    }
}

fn style_prefix(message: &str, level: &str, color: &str) -> (r: String)
    requires
        level@.len() <= message@.len(),
    ensures
        r@ == "\x1b[1;"@ + color@ + "m"@ + level@ + "\x1b[0m"@ + message@.subrange(
            level@.len() as int,
            message@.len() as int,
        ),
{
    let mut r = String::new();
    push_str(&mut r, "\x1b[1;");
    push_str(&mut r, color);
    push_str(&mut r, "m");
    push_str(&mut r, level);
    push_str(&mut r, "\x1b[0m");
    let n = message.unicode_len();
    let rest = message.substring_char(level.unicode_len(), n);
    push_str(&mut r, rest);
    r
}

/// Highlights a recognized severity prefix of a tool diagnostic and keeps
/// the message itself unchanged.
pub fn style_diagnostic_level(message: &str, styled: bool) -> (r: String)
    ensures
        r@ == styled_diagnostic(message@, styled),
{
    if !styled {
        return message.to_owned();
    }
    proof {
        reveal_strlit("[TRACE]");
        reveal_strlit("[DEBUG]");
        reveal_strlit("[INFO]");
        reveal_strlit("[WARN]");
        reveal_strlit("[ERROR]");
        reveal_strlit("[FATAL]");
    }
    if starts_with(message, "[TRACE]") {
        style_prefix(message, "[TRACE]", "90")
    } else if starts_with(message, "[DEBUG]") {
        style_prefix(message, "[DEBUG]", "34")
    } else if starts_with(message, "[INFO]") {
        style_prefix(message, "[INFO]", "36")
    } else if starts_with(message, "[WARN]") {
        style_prefix(message, "[WARN]", "33")
    } else if starts_with(message, "[ERROR]") {
        style_prefix(message, "[ERROR]", "31")
    } else if starts_with(message, "[FATAL]") {
        style_prefix(message, "[FATAL]", "35")
    } else {
        message.to_owned()
    }
}

pub open spec fn decorated_status(marker: Seq<char>, message: Seq<char>, styled: bool, color: Seq<char>) -> Seq<char> {
    if styled {
        "\x1b[1;"@ + color + "m"@ + marker + "\x1b[0m "@ + message
    } else {
        marker + " "@ + message
    }
}

/// Puts a status marker before a message, coloring only the marker.
pub fn decorate_status(marker: &str, message: &str, styled: bool, color: &str) -> (r: String)
    ensures
        r@ == decorated_status(marker@, message@, styled, color@),
{
    let mut r = String::new();
    if styled {
        push_str(&mut r, "\x1b[1;");
        push_str(&mut r, color);
        push_str(&mut r, "m");
        push_str(&mut r, marker);
        push_str(&mut r, "\x1b[0m ");
        push_str(&mut r, message);
    } else {
        push_str(&mut r, marker);
        push_str(&mut r, " ");
        push_str(&mut r, message);
    }
    r
}

/// The help payload below its logical owner: the path from `Ext/Help/` on.
pub fn diagnostic_path_tail(relative: &str) -> (tail: Option<&str>)
    ensures
        tail is None <==> !exists|i: int| #[trigger] occurs_at(relative@, "/Ext/Help/"@, i),
        tail matches Some(t) ==> exists|i: int|
            occurs_at(relative@, "/Ext/Help/"@, i) && (forall|j: int|
                0 <= j < i ==> !#[trigger] occurs_at(relative@, "/Ext/Help/"@, j)) && t@
                == relative@.subrange(i + 1, relative@.len() as int),
{
    proof {
        reveal_strlit("/Ext/Help/");
    }
    match find_text(relative, "/Ext/Help/") {
        Some(position) => {
            let n = relative.unicode_len();
            Some(relative.substring_char(position + 1, n))
        },
        None => None,
    }
}

/// A Unicode control character (general category Cc).
pub open spec fn is_control(c: char) -> bool {
    (c as u32) <= 0x1f || (0x7f <= (c as u32) && (c as u32) <= 0x9f)
}

/// Lower-case hexadecimal digit of a value below sixteen.
pub open spec fn lower_hex_digit(v: int) -> char {
    if v < 10 {
        (48 + v) as char
    } else {
        (87 + v) as char
    }
}

/// How `char::escape_default` writes a control character.
pub open spec fn escaped_control(c: char) -> Seq<char> {
    if c == '\t' {
        seq!['\\', 't']
    } else if c == '\r' {
        seq!['\\', 'r']
    } else if c == '\n' {
        seq!['\\', 'n']
    } else if (c as u32) < 16 {
        seq!['\\', 'u', '{', lower_hex_digit(c as u32 as int), '}']
    } else {
        seq!['\\', 'u', '{', lower_hex_digit((c as u32 / 16) as int), lower_hex_digit((c as u32 % 16) as int), '}']
    }
}

/// Text with every control character escaped.
pub open spec fn controls_escaped(text: Seq<char>) -> Seq<char>
    decreases text.len(),
{
    if text.len() == 0 {
        Seq::empty()
    } else {
        let c = text.last();
        controls_escaped(text.drop_last()) + if is_control(c) {
            escaped_control(c)
        } else {
            seq![c]
        }
    }
}

fn lower_hex_char(v: u32) -> (c: char)
    requires
        v < 16,
    ensures
        c == lower_hex_digit(v as int),
{
    if v < 10 {
        ((48 + v) as u8) as char
    } else {
        ((87 + v) as u8) as char
    }
}

/// Escapes control characters without making an ordinary path harder to read.
pub fn display_path(path: &str) -> (shown: String)
    ensures
        shown@ == controls_escaped(path@),
{
    let n = path.unicode_len();
    let mut shown = String::new();
    let mut i: usize = 0;
    while i < n
        invariant
            n == path@.len(),
            i <= n,
            shown@ == controls_escaped(path@.subrange(0, i as int)),
        decreases n - i,
    {
        let c = path.get_char(i);
        let code = c as u32;
        if code <= 0x1f || (0x7f <= code && code <= 0x9f) {
            if c == '\t' {
                shown.push('\\');
                shown.push('t');
            } else if c == '\r' {
                shown.push('\\');
                shown.push('r');
            } else if c == '\n' {
                shown.push('\\');
                shown.push('n');
            } else {
                shown.push('\\');
                shown.push('u');
                shown.push('{');
                if code >= 16 {
                    shown.push(lower_hex_char(code / 16));
                }
                shown.push(lower_hex_char(code % 16));
                shown.push('}');
            }
        } else {
            shown.push(c);
        }
        proof {
            assert(path@.subrange(0, i + 1).drop_last() =~= path@.subrange(0, i as int));
            assert(shown@ =~= controls_escaped(path@.subrange(0, i + 1)));
        }
        i = i + 1;
    }
    assert(path@.subrange(0, n as int) =~= path@);
    shown
}

/// Bytes that stay literal in a file URI path.
pub open spec fn uri_safe(b: u8) -> bool {
    (48 <= b <= 57) || (65 <= b <= 90) || (97 <= b <= 122) || b == 45 || b == 46 || b == 95 || b
        == 126 || b == 47 || b == 58
}

pub open spec fn uri_encoded(bytes: Seq<u8>) -> Seq<char>
    decreases bytes.len(),
{
    if bytes.len() == 0 {
        Seq::empty()
    } else {
        let b = bytes.last();
        uri_encoded(bytes.drop_last()) + if uri_safe(b) {
            seq![b as char]
        } else {
            seq!['%', hex_digit((b / 16) as int), hex_digit((b % 16) as int)]
        }
    }
}

/// Percent-encodes the bytes that are not safe inside a file URI path.
pub fn percent_encode_uri_path(path: &[u8]) -> (encoded: String)
    ensures
        encoded@ == uri_encoded(path@),
{
    let mut encoded = String::new();
    let mut i: usize = 0;
    while i < path.len()
        invariant
            i <= path@.len(),
            encoded@ == uri_encoded(path@.subrange(0, i as int)),
        decreases path.len() - i,
    {
        let b = path[i];
        if (48 <= b && b <= 57) || (65 <= b && b <= 90) || (97 <= b && b <= 122) || b == 45 || b
            == 46 || b == 95 || b == 126 || b == 47 || b == 58 {
            encoded.push(b as char);
        } else {
            encoded.push('%');
            encoded.push(hex_char(b / 16));
            encoded.push(hex_char(b % 16));
        }
        proof {
            assert(path@.subrange(0, i + 1).drop_last() =~= path@.subrange(0, i as int));
            assert(encoded@ =~= uri_encoded(path@.subrange(0, i + 1)));
        }
        i = i + 1;
    }
    assert(path@.subrange(0, path@.len() as int) =~= path@);
    encoded
}

/// Every backslash read as a forward slash.
pub open spec fn forward_slashes(text: Seq<char>) -> Seq<char> {
    text.map_values(|c: char| if c == '\\' { '/' } else { c })
}

/// The URI scheme and authority part that a normalized path needs.
pub open spec fn uri_prefix(normalized: Seq<char>) -> Seq<char> {
    if normalized.len() >= 2 && normalized[0] == '/' && normalized[1] == '/' {
        "file:"@
    } else if normalized.len() >= 1 && normalized[0] == '/' {
        "file://"@
    } else {
        "file:///"@
    }
}

pub open spec fn file_uri_spec(path: Seq<char>) -> Seq<char> {
    let normalized = forward_slashes(path);
    uri_prefix(normalized) + uri_encoded(encode_utf8(normalized))
}

/// Encodes a local directory as a file URI that is safe as a terminal link target.
pub fn file_uri(path: &str) -> (uri: String)
    ensures
        uri@ == file_uri_spec(path@),
{
    let n = path.unicode_len();
    let mut normalized = String::new();
    let mut i: usize = 0;
    while i < n
        invariant
            n == path@.len(),
            i <= n,
            normalized@ == forward_slashes(path@.subrange(0, i as int)),
        decreases n - i,
    {
        let c = path.get_char(i);
        if c == '\\' {
            normalized.push('/');
        } else {
            normalized.push(c);
        }
        proof {
            assert(normalized@ =~= forward_slashes(path@.subrange(0, i + 1)));
        }
        i = i + 1;
    }
    assert(path@.subrange(0, n as int) =~= path@);
    let text = normalized.as_str();
    proof {
        reveal_strlit("//");
        reveal_strlit("/");
    }
    let mut uri = String::new();
    let double = starts_with(text, "//");
    let single = starts_with(text, "/");
    assert(double == (text@.len() >= 2 && text@[0] == '/' && text@[1] == '/')) by {
        if text@.len() >= 2 {
            assert(text@.subrange(0, 2)[0] == text@[0]);
            assert(text@.subrange(0, 2)[1] == text@[1]);
            if text@[0] == '/' && text@[1] == '/' {
                assert(text@.subrange(0, 2) =~= "//"@);
            }
        }
    }
    assert(single == (text@.len() >= 1 && text@[0] == '/')) by {
        if text@.len() >= 1 {
            assert(text@.subrange(0, 1)[0] == text@[0]);
            if text@[0] == '/' {
                assert(text@.subrange(0, 1) =~= "/"@);
            }
        }
    }
    if double {
        push_str(&mut uri, "file:");
    } else if single {
        push_str(&mut uri, "file://");
    } else {
        push_str(&mut uri, "file:///");
    }
    let encoded = percent_encode_uri_path(text.as_bytes());
    push_str(&mut uri, encoded.as_str());
    uri
}

pub open spec fn artifact_link(artifact: Seq<char>, parent: Option<Seq<char>>, hyperlink: bool) -> Seq<char> {
    let label = controls_escaped(artifact);
    match parent {
        Some(p) => if hyperlink {
            "\x1b]8;;"@ + file_uri_spec(p) + "\x1b\\"@ + label + "\x1b]8;;\x1b\\"@
        } else {
            label
        },
        None => label,
    }
}

/// Shows an artifact path; on a terminal it links to the artifact's directory.
pub fn render_artifact_link(artifact: &str, parent: Option<&str>, hyperlink: bool) -> (r: String)
    ensures
        r@ == artifact_link(
            artifact@,
            match parent {
                Some(p) => Some(p@),
                None => None,
            },
            hyperlink,
        ),
{
    let label = display_path(artifact);
    match parent {
        Some(p) => {
            if hyperlink {
                let mut r = String::new();
                push_str(&mut r, "\x1b]8;;");
                let target = file_uri(p);
                push_str(&mut r, target.as_str());
                push_str(&mut r, "\x1b\\");
                push_str(&mut r, label.as_str());
                push_str(&mut r, "\x1b]8;;\x1b\\");
                r
            } else {
                label
            }
        },
        None => label,
    }
}

pub open spec fn build_success(label: Seq<char>, artifact: Seq<char>, parent: Option<Seq<char>>, styled: bool, hyperlink: bool) -> Seq<char> {
    let shown_label = if styled {
        "\x1b[1m"@ + label + "\x1b[0m"@
    } else {
        label
    };
    decorated_status("✓"@, shown_label + " "@ + artifact_link(artifact, parent, hyperlink), styled, "32"@)
}

/// The success line of a build: a bold translated label and the linked artifact.
pub fn render_build_success(label: &str, artifact: &str, parent: Option<&str>, styled: bool, hyperlink: bool) -> (r: String)
    ensures
        r@ == build_success(
            label@,
            artifact@,
            match parent {
                Some(p) => Some(p@),
                None => None,
            },
            styled,
            hyperlink,
        ),
{
    let mut message = String::new();
    if styled {
        push_str(&mut message, "\x1b[1m");
        push_str(&mut message, label);
        push_str(&mut message, "\x1b[0m");
    } else {
        push_str(&mut message, label);
    }
    push_str(&mut message, " ");
    let link = render_artifact_link(artifact, parent, hyperlink);
    push_str(&mut message, link.as_str());
    decorate_status("✓", message.as_str(), styled, "32")
}

/// The kind of artifact a build produces.
#[derive(Clone, Copy, Debug, PartialEq, Eq, Structural)]
pub enum ArtifactType {
    Configuration,
    Extension,
    Processing,
    Report,
}

pub open spec fn artifact_type_key_spec(artifact_type: ArtifactType) -> Seq<char> {
    match artifact_type {
        ArtifactType::Configuration => "build-preview-type-configuration"@,
        ArtifactType::Extension => "build-preview-type-extension"@,
        ArtifactType::Processing => "build-preview-type-processing"@,
        ArtifactType::Report => "build-preview-type-report"@,
    }
}

/// The translation key of an artifact kind in a build preview.
pub fn artifact_type_key(artifact_type: ArtifactType) -> (key: &'static str)
    ensures
        key@ == artifact_type_key_spec(artifact_type),
{
    match artifact_type {
        ArtifactType::Configuration => "build-preview-type-configuration",
        ArtifactType::Extension => "build-preview-type-extension",
        ArtifactType::Processing => "build-preview-type-processing",
        ArtifactType::Report => "build-preview-type-report",
    }
}

/// Where the platform tool comes from.
#[derive(Clone, Copy, Debug, PartialEq, Eq, Structural)]
pub enum ToolSourceKind {
    Explicit,
    Path,
    Standard,
    Distrobox,
}

pub open spec fn runner_key_spec(source: ToolSourceKind) -> Seq<char> {
    match source {
        ToolSourceKind::Distrobox => "build-preview-runner-distrobox"@,
        _ => "build-preview-runner-host"@,
    }
}

/// The translation key of the runner of a platform tool in a build preview.
pub fn runner_key(source: ToolSourceKind) -> (key: &'static str)
    ensures
        key@ == runner_key_spec(source),
{
    match source {
        ToolSourceKind::Explicit | ToolSourceKind::Path | ToolSourceKind::Standard => "build-preview-runner-host",
        ToolSourceKind::Distrobox => "build-preview-runner-distrobox",
    }
}

/// One project of a build preview, as the build plan and the platform tool
/// found for it describe it. Paths are given as they are and are shown with
/// their control characters escaped.
pub struct ProjectPreview {
    /// The workspace member name, or else the name of the project directory.
    pub name: String,
    pub root: String,
    pub source: String,
    pub base_configuration: Option<String>,
    pub infobase: String,
    pub recreates_infobase: bool,
    pub artifact_type: ArtifactType,
    pub output: String,
    /// Whether a file already stands where the artifact goes.
    pub replaces_existing: bool,
    pub required_platform: String,
    pub found_platform: String,
    pub runner: ToolSourceKind,
}

/// A preview field: its translated label with the value.
pub open spec fn field_spec(key: Seq<char>, value: ArgView) -> LineView {
    LineView::Translated(plain(key).with("value"@, value))
}

pub open spec fn shown_path(path: Seq<char>) -> ArgView {
    ArgView::Text(controls_escaped(path))
}

/// The lines of the project at `position` (counted from one): its heading,
/// then root, source, the base configuration where there is one, the
/// infobase and whether it is created anew, the artifact's kind and path,
/// whether it replaces a file, both platform versions and the runner.
pub open spec fn project_preview_spec(position: usize, p: ProjectPreview) -> Seq<LineView> {
    seq![
        LineView::Translated(
            plain("build-preview-project"@).with("position"@, count_arg(position)).with(
                "name"@,
                ArgView::Text(p.name@),
            ),
        ),
        field_spec("build-preview-root"@, shown_path(p.root@)),
        field_spec("build-preview-source"@, shown_path(p.source@)),
    ] + match p.base_configuration {
        Some(base) => seq![field_spec("build-preview-base-configuration"@, shown_path(base@))],
        None => Seq::<LineView>::empty(),
    } + seq![
        field_spec("build-preview-infobase"@, shown_path(p.infobase@)),
        field_spec(
            "build-preview-infobase-mode"@,
            ArgView::Translated(
                if p.recreates_infobase {
                    "build-preview-infobase-recreate"@
                } else {
                    "build-preview-infobase-reuse"@
                },
            ),
        ),
        field_spec("build-preview-artifact-type"@, ArgView::Translated(artifact_type_key_spec(p.artifact_type))),
        field_spec("build-preview-artifact-path"@, shown_path(p.output@)),
        field_spec(
            "build-preview-replaces-existing"@,
            ArgView::Translated(
                if p.replaces_existing {
                    "build-preview-yes"@
                } else {
                    "build-preview-no"@
                },
            ),
        ),
        field_spec("build-preview-required-platform"@, ArgView::Text(p.required_platform@)),
        field_spec("build-preview-found-platform"@, ArgView::Text(p.found_platform@)),
        field_spec("build-preview-runner"@, ArgView::Translated(runner_key_spec(p.runner))),
    ]
}

/// The lines of the first `n` projects, numbered from one.
pub open spec fn projects_preview_spec(projects: Seq<ProjectPreview>, n: nat) -> Seq<LineView>
    decreases n,
{
    if n == 0 {
        Seq::empty()
    } else {
        projects_preview_spec(projects, (n - 1) as nat) + project_preview_spec(n as usize, projects[n - 1])
    }
}

/// A build preview: its title, whether it builds a workspace or one
/// project, the number of projects, then each project in order.
pub open spec fn build_preview_spec(aggregate: bool, projects: Seq<ProjectPreview>) -> Seq<LineView> {
    seq![
        LineView::Translated(plain("build-preview-title"@)),
        LineView::Translated(
            plain(
                if aggregate {
                    "build-preview-scope-workspace"@
                } else {
                    "build-preview-scope-project"@
                },
            ),
        ),
        LineView::Translated(plain("build-preview-projects"@).with("projects"@, count_arg(projects.len() as usize))),
    ] + projects_preview_spec(projects, projects.len())
}

fn push_field(lines: &mut Vec<Line>, key: &'static str, value: &str)
    ensures
        lines_view(final(lines)@) == lines_view(old(lines)@).push(field_spec(key@, ArgView::Text(value@))),
{
    push_report_line(lines, Line::Translated(Message::new(key).text("value", value)));
}

fn push_translated_field(lines: &mut Vec<Line>, key: &'static str, value: &'static str)
    ensures
        lines_view(final(lines)@) == lines_view(old(lines)@).push(field_spec(key@, ArgView::Translated(value@))),
{
    push_report_line(lines, Line::Translated(Message::new(key).translated("value", value)));
}

fn push_path_field(lines: &mut Vec<Line>, key: &'static str, path: &str)
    ensures
        lines_view(final(lines)@) == lines_view(old(lines)@).push(field_spec(key@, shown_path(path@))),
{
    let shown = display_path(path);
    push_field(lines, key, shown.as_str());
}

/// Appends the lines of one project of a build preview.
fn push_project_preview(lines: &mut Vec<Line>, position: usize, p: &ProjectPreview)
    ensures
        lines_view(final(lines)@) == lines_view(old(lines)@) + project_preview_spec(position, *p),
{
    let ghost start = lines_view(lines@);
    let heading = Message::new("build-preview-project").number("position", count_value(position)).text(
        "name",
        p.name.as_str(),
    );
    push_report_line(lines, Line::Translated(heading));
    push_path_field(lines, "build-preview-root", p.root.as_str());
    push_path_field(lines, "build-preview-source", p.source.as_str());
    if let Some(base) = &p.base_configuration {
        push_path_field(lines, "build-preview-base-configuration", base.as_str());
    }
    push_path_field(lines, "build-preview-infobase", p.infobase.as_str());
    let mode = if p.recreates_infobase {
        "build-preview-infobase-recreate"
    } else {
        "build-preview-infobase-reuse"
    };
    push_translated_field(lines, "build-preview-infobase-mode", mode);
    push_translated_field(lines, "build-preview-artifact-type", artifact_type_key(p.artifact_type));
    push_path_field(lines, "build-preview-artifact-path", p.output.as_str());
    let replaces = if p.replaces_existing {
        "build-preview-yes"
    } else {
        "build-preview-no"
    };
    push_translated_field(lines, "build-preview-replaces-existing", replaces);
    push_field(lines, "build-preview-required-platform", p.required_platform.as_str());
    push_field(lines, "build-preview-found-platform", p.found_platform.as_str());
    push_translated_field(lines, "build-preview-runner", runner_key(p.runner));
    assert(lines_view(lines@) =~= start + project_preview_spec(position, *p));
}

/// The lines of a build preview of the given projects, in build order.
pub fn build_preview_lines(aggregate: bool, projects: &Vec<ProjectPreview>) -> (lines: Vec<Line>)
    ensures
        lines_view(lines@) == build_preview_spec(aggregate, projects@),
{
    let mut lines: Vec<Line> = Vec::new();
    push_report_line(&mut lines, Line::Translated(Message::new("build-preview-title")));
    let scope = if aggregate {
        "build-preview-scope-workspace"
    } else {
        "build-preview-scope-project"
    };
    push_report_line(&mut lines, Line::Translated(Message::new(scope)));
    push_report_line(
        &mut lines,
        Line::Translated(Message::new("build-preview-projects").number("projects", count_value(projects.len()))),
    );
    let ghost head = lines_view(lines@);
    let mut i: usize = 0;
    while i < projects.len()
        invariant
            i <= projects@.len(),
            lines_view(lines@) == head + projects_preview_spec(projects@, i as nat),
        decreases projects.len() - i,
    {
        push_project_preview(&mut lines, i + 1, &projects[i]);
        proof {
            assert(projects_preview_spec(projects@, (i + 1) as nat) == projects_preview_spec(projects@, i as nat)
                + project_preview_spec((i + 1) as usize, projects@[i as int]));
            assert(lines_view(lines@) =~= head + projects_preview_spec(projects@, (i + 1) as nat));
        }
        i = i + 1;
    }
    assert(lines_view(lines@) =~= build_preview_spec(aggregate, projects@));
    lines
}

/// The frames of the build spinner, in the order they turn.
pub open spec fn spinner_frames() -> Seq<Seq<char>> {
    seq!["⠋"@, "⠙"@, "⠹"@, "⠸"@, "⠼"@, "⠴"@, "⠦"@, "⠧"@, "⠇"@, "⠏"@]
}

fn spinner_frame(frame: usize) -> (marker: &'static str)
    requires
        frame < 10,
    ensures
        marker@ == spinner_frames()[frame as int],
{
    match frame {
        0 => "⠋",
        1 => "⠙",
        2 => "⠹",
        3 => "⠸",
        4 => "⠼",
        5 => "⠴",
        6 => "⠦",
        7 => "⠧",
        8 => "⠇",
        _ => "⠏",
    }
}

/// The progress line of a running build at animation step `frame`: the
/// spinner frame that the step comes round to, before the message.
pub fn progress_line(frame: usize, message: &str, styled: bool) -> (r: String)
    ensures
        r@ == decorated_status(spinner_frames()[frame as int % 10], message@, styled, "36"@),
{
    decorate_status(spinner_frame(frame % 10), message, styled, "36")
}

} // verus!

use vstd::prelude::*;

use crate::diagnostics::diagnostics::Diagnostics;
use crate::diagnostics::labeling::{labels_view, Label, LabelStyle, LabelView};
use crate::diagnostics::paint::{green_bold, lemma_painted, magenta_bold, paint, yellow_bold};
use crate::diagnostics::token_text::{token_debug, token_debug_text};
use crate::lexer::span::Span;
use crate::text::{digits_text, replace_all, replace_char, string_from, string_push, string_push_str, texts, usize_text};
use crate::typechecker::error::{BindingKind, DefinitionKind, LoopControlKind, TypeError};
use crate::typechecker::types::{display_text, Ty};

verus! {

/// `n` copies of `c`.
pub fn repeat_char(c: char, n: usize) -> (r: String)
    ensures
        r@ == Seq::new(n as nat, |i: int| c),
{
    let mut r = String::new();
    let mut i: usize = 0;
    while i < n
        invariant
            i <= n,
            r@ == Seq::new(i as nat, |k: int| c),
        decreases n - i,
    {
        string_push(&mut r, c);
        assert(r@ =~= Seq::new((i + 1) as nat, |k: int| c));
        i = i + 1;
    }
    r
}

/// Whether `pat` occurs in `s`.
pub fn contains_text(s: &str, pat: &str) -> (r: bool)
    ensures
        r == exists|i: int| 0 <= i && i + pat@.len() <= s@.len() && #[trigger] s@.subrange(i, i + pat@.len()) == pat@,
{
    let sc = crate::text::chars_of(s);
    let pc = crate::text::chars_of(pat);
    if pc.len() > sc.len() {
        return false;
    }
    let mut i: usize = 0;
    while i <= sc.len() - pc.len()
        invariant
            pc.len() <= sc.len(),
            i <= sc.len() - pc.len() + 1,
            sc@ == s@,
            pc@ == pat@,
            forall|k: int| 0 <= k < i ==> #[trigger] s@.subrange(k, k + pat@.len()) != pat@,
        decreases sc.len() - i,
    {
        let mut j: usize = 0;
        let mut same = true;
        while j < pc.len()
            invariant
                j <= pc.len(),
                i + pc.len() <= sc.len(),
                same == forall|k: int| 0 <= k < j ==> sc@[i + k] == pc@[k],
            decreases pc.len() - j,
        {
            if sc[i + j] != pc[j] {
                same = false;
            }
            j = j + 1;
        }
        if same {
            assert(s@.subrange(i as int, i + pat@.len()) =~= pat@);
            return true;
        }
        proof {
            let k = choose|k: int| 0 <= k < pc.len() && sc@[i + k] != pc@[k];
            assert(s@.subrange(i as int, i + pat@.len())[k] != pat@[k]);
        }
        i = i + 1;
    }
    false
}

/// `t` right-aligned in a field of `width` chars.
pub fn pad_left(t: &str, width: usize) -> (r: String)
    ensures
        r@ == (if t@.len() < width {
            Seq::new((width - t@.len()) as nat, |i: int| ' ') + t@
        } else {
            t@
        }),
{
    let tc = crate::text::chars_of(t);
    if tc.len() < width {
        let mut r = repeat_char(' ', width - tc.len());
        string_push_str(&mut r, t);
        r
    } else {
        string_from(t)
    }
}

/// The line that says where the error is: `  > path:line:col`.
pub open spec fn location_text(path: Seq<char>, span: Span) -> Seq<char> {
    "\n  > "@ + path + ":"@ + digits_text(span.start.line as nat) + ":"@ + digits_text(span.start.col as nat) + "\n"@
}

/// `n` spaces.
pub open spec fn spaces(n: nat) -> Seq<char> {
    Seq::new(n, |i: int| ' ')
}

/// The marks under a span: spaces up to its column, then `~` as wide as
/// the span (at least one).
pub open spec fn underline_text(span: Span) -> Seq<char> {
    let len: nat = if span.end.col > span.start.col {
        (span.end.col - span.start.col) as nat
    } else {
        1
    };
    spaces(span.start.col as nat) + Seq::new(len, |i: int| '~')
}

/// The source line `line` (counted from one; line zero is the first), or a
/// placeholder when the file has no such line.
pub open spec fn code_line_text(lines: Seq<Seq<char>>, line: usize) -> Seq<char> {
    let idx: int = if line > 0 {
        line - 1
    } else {
        0
    };
    if idx < lines.len() {
        lines[idx]
    } else {
        "<source unavailable>"@
    }
}

/// A line of the frame without text: `width` spaces, then `│`.
pub open spec fn gap_text(width: nat) -> Seq<char> {
    " "@ + spaces(width) + "  \u{2502}\n"@
}

/// `t` right-aligned in a field of `width` chars.
pub open spec fn padded(t: Seq<char>, width: nat) -> Seq<char> {
    if t.len() < width {
        spaces((width - t.len()) as nat) + t
    } else {
        t
    }
}

/// The largest line a label starts on.
pub open spec fn max_line(labels: Seq<LabelView>) -> usize
    decreases labels.len(),
{
    if labels.len() <= 1 {
        labels[0].span.start.line
    } else if labels.last().span.start.line >= max_line(labels.drop_last()) {
        labels.last().span.start.line
    } else {
        max_line(labels.drop_last())
    }
}

/// The part of the frame for one label: its source line, numbered, then
/// its marks and note, colored (`on_mark`, `on_note`) in the label's color.
#[verifier::opaque]
pub open spec fn label_text(
    on_mark: bool,
    on_note: bool,
    l: LabelView,
    width: nat,
    lines: Seq<Seq<char>>,
    quiet: bool,
) -> Seq<char> {
    let gap = if quiet {
        Seq::empty()
    } else {
        gap_text(width)
    };
    let marks = if l.style is Primary {
        underline_text(l.span)
    } else {
        replace_char(underline_text(l.span), '~', "_"@)
    };
    let code = if l.style is Primary {
        seq!['3', '5']
    } else {
        seq!['3', '3']
    };
    gap + " "@ + padded(digits_text(l.span.start.line as nat), width) + "  \u{2502}  "@ + code_line_text(
        lines,
        l.span.start.line,
    ) + "\n"@ + " "@ + spaces(width) + "  \u{2502} "@ + paint(on_mark, marks, code) + " "@ + paint(
        on_note,
        l.message,
        code,
    ) + "\n"@ + gap
}

/// The parts of the frame for the labels, the colors of the `i`-th label's
/// marks and note given by `cs[2 i]` and `cs[2 i + 1]`.
pub open spec fn labels_text(cs: Seq<bool>, labels: Seq<LabelView>, width: nat, lines: Seq<Seq<char>>, quiet: bool) -> Seq<
    char,
>
    decreases labels.len(),
{
    if labels.len() == 0 {
        Seq::empty()
    } else {
        let n = labels.len() - 1;
        labels_text(cs, labels.drop_last(), width, lines, quiet) + label_text(
            cs[2 * n],
            cs[2 * n + 1],
            labels.last(),
            width,
            lines,
            quiet,
        )
    }
}

/// An edge of the frame: `width` spaces, the corner, and a rule of 60 `─`
/// (`long`) or 50.
pub open spec fn frame_edge(width: nat, corner: Seq<char>, long: bool) -> Seq<char> {
    " "@ + spaces(width) + corner + Seq::new(
        if long {
            60nat
        } else {
            50nat
        },
        |i: int| '\u{2500}',
    ) + "\n"@
}

/// The help line, its two pieces colored when `on_help.0` and `on_help.1`;
/// nothing when there is no help.
pub open spec fn help_text(on_help: (bool, bool), help: Option<Seq<char>>) -> Seq<char> {
    match help {
        Some(h) => paint(on_help.0, "help:"@, seq!['3', '2']) + " "@ + paint(on_help.1, h, seq!['3', '2']) + "\n"@,
        None => Seq::empty(),
    }
}

/// The first line of a report, `error: message` (the `error: ` colored when
/// `on_head`), then where it is.
pub open spec fn head_text(on_head: bool, path: Seq<char>, main_span: Span, message: Seq<char>) -> Seq<char> {
    paint(on_head, "error: "@, seq!['3', '5']) + message + location_text(path, main_span)
}

/// A whole report: its first line, the frame with a part for each label
/// (colored as `cs` says), and the help line.
pub open spec fn report_text(
    on_head: bool,
    cs: Seq<bool>,
    on_help: (bool, bool),
    path: Seq<char>,
    main_span: Span,
    message: Seq<char>,
    labels: Seq<LabelView>,
    help: Option<Seq<char>>,
    lines: Seq<Seq<char>>,
) -> Seq<char> {
    let width = digits_text(max_line(labels) as nat).len();
    let quiet = occurs(message, "outside of a loop"@);
    head_text(on_head, path, main_span, message) + frame_edge(width, "  \u{256d}\u{2500}"@, labels.len() != 1)
        + labels_text(cs, labels, width, lines, quiet) + frame_edge(width, "  \u{2570}\u{2500}"@, labels.len() != 1)
        + help_text(on_help, help)
}

/// The marks under a span: spaces up to its column, then `~` as wide as
/// the span (at least one).
fn underline(span: Span) -> (r: String)
    ensures
        r@ == underline_text(span),
{
    let len: usize = if span.end.col > span.start.col {
        span.end.col - span.start.col
    } else {
        1
    };
    let mut r = repeat_char(' ', span.start.col);
    let marks = repeat_char('~', len);
    string_push_str(&mut r, marks.as_str());
    r
}

/// The source line a label points at, or a placeholder when the file has
/// no such line.
fn code_line(source_lines: &Vec<String>, line: usize) -> (r: String)
    ensures
        r@ == code_line_text(texts(source_lines@), line),
{
    proof {
        reveal_strlit("<source unavailable>");
    }
    let idx: usize = if line > 0 {
        line - 1
    } else {
        0
    };
    if idx < source_lines.len() {
        source_lines[idx].clone()
    } else {
        string_from("<source unavailable>")
    }
}

/// `width` spaces, then the frame's `│` and a newline.
fn frame_gap(width: usize) -> (r: String)
    ensures
        r@ == gap_text(width as nat),
{
    proof {
        reveal_strlit(" ");
        reveal_strlit("  \u{2502}\n");
    }
    let mut r = string_from(" ");
    let pad = repeat_char(' ', width);
    string_push_str(&mut r, pad.as_str());
    string_push_str(&mut r, "  \u{2502}\n");
    r
}

/// The text of a help line, if there is one.
pub open spec fn help_view(help: Option<&str>) -> Option<Seq<char>> {
    match help {
        Some(h) => Some(h@),
        None => None,
    }
}

/// The largest line a label starts on.
fn max_label_line(labels: &Vec<Label>) -> (r: usize)
    requires
        labels.len() > 0,
    ensures
        r == max_line(labels_view(labels@)),
{
    let ghost lv = labels_view(labels@);
    let mut m: usize = labels[0].span.start.line;
    let mut k: usize = 1;
    assert(lv.take(1).len() == 1);
    while k < labels.len()
        invariant
            1 <= k <= labels.len(),
            lv == labels_view(labels@),
            m == max_line(lv.take(k as int)),
        decreases labels.len() - k,
    {
        assert(lv.take(k + 1).drop_last() =~= lv.take(k as int));
        assert(lv.take(k + 1).last() == labels@[k as int]@);
        if labels[k].span.start.line >= m {
            m = labels[k].span.start.line;
        }
        k = k + 1;
    }
    assert(lv.take(labels.len() as int) =~= lv);
    m
}

/// Two color choices per label agree on the first labels: their frame
/// parts are the same.
proof fn lemma_labels_text_prefix(
    cs1: Seq<bool>,
    cs2: Seq<bool>,
    labels: Seq<LabelView>,
    width: nat,
    lines: Seq<Seq<char>>,
    quiet: bool,
)
    requires
        2 * labels.len() <= cs1.len(),
        2 * labels.len() <= cs2.len(),
        forall|j: int| 0 <= j < 2 * labels.len() ==> cs1[j] == cs2[j],
    ensures
        labels_text(cs1, labels, width, lines, quiet) == labels_text(cs2, labels, width, lines, quiet),
    decreases labels.len(),
{
    if labels.len() > 0 {
        lemma_labels_text_prefix(cs1, cs2, labels.drop_last(), width, lines, quiet);
    }
}

/// One more label in the frame: its part comes after those of the others.
proof fn lemma_labels_text_step(
    cs: Seq<bool>,
    a: bool,
    b: bool,
    labels: Seq<LabelView>,
    width: nat,
    lines: Seq<Seq<char>>,
    quiet: bool,
)
    requires
        labels.len() > 0,
        cs.len() == 2 * (labels.len() - 1),
    ensures
        labels_text(cs.push(a).push(b), labels, width, lines, quiet) == labels_text(
            cs,
            labels.drop_last(),
            width,
            lines,
            quiet,
        ) + label_text(a, b, labels.last(), width, lines, quiet),
{
    let cs2 = cs.push(a).push(b);
    lemma_labels_text_prefix(cs, cs2, labels.drop_last(), width, lines, quiet);
    assert(cs2[2 * (labels.len() - 1)] == a);
    assert(cs2[2 * (labels.len() - 1) + 1] == b);
}

/// The part of the frame for one label: its source line, numbered, then its
/// marks and note in the label's color.
fn label_part(label: &Label, width: usize, source_lines: &Vec<String>, quiet: bool) -> (r: String)
    ensures
        exists|on_mark: bool, on_note: bool|
            r@ == label_text(on_mark, on_note, label@, width as nat, texts(source_lines@), quiet),
{
    let mut res = String::new();
    if !quiet {
        let g = frame_gap(width);
        string_push_str(&mut res, g.as_str());
    }
    let number = usize_text(label.span.start.line);
    let number_text = pad_left(number.as_str(), width);
    let code = code_line(source_lines, label.span.start.line);
    let pad = repeat_char(' ', width);
    string_push_str(&mut res, " ");
    string_push_str(&mut res, number_text.as_str());
    string_push_str(&mut res, "  \u{2502}  ");
    string_push_str(&mut res, code.as_str());
    string_push_str(&mut res, "\n");
    let marks = underline(label.span);
    let (mark_text, note_text) = match label.style {
        LabelStyle::Primary => (magenta_bold(marks.as_str()), magenta_bold(label.message.as_str())),
        LabelStyle::Secondary => {
            let flat = replace_all(marks.as_str(), '~', "_");
            (yellow_bold(flat.as_str()), yellow_bold(label.message.as_str()))
        },
    };
    string_push_str(&mut res, " ");
    string_push_str(&mut res, pad.as_str());
    string_push_str(&mut res, "  \u{2502} ");
    string_push_str(&mut res, mark_text.as_str());
    string_push_str(&mut res, " ");
    string_push_str(&mut res, note_text.as_str());
    string_push_str(&mut res, "\n");
    if !quiet {
        let g = frame_gap(width);
        string_push_str(&mut res, g.as_str());
    }
    proof {
        let code_digits: Seq<char> = if label.style is Primary {
            seq!['3', '5']
        } else {
            seq!['3', '3']
        };
        let marks_v = if label.style is Primary {
            underline_text(label.span)
        } else {
            replace_char(underline_text(label.span), '~', "_"@)
        };
        lemma_painted(mark_text@, marks_v, code_digits);
        lemma_painted(note_text@, label.message@, code_digits);
        let a = mark_text@ != marks_v;
        let b = note_text@ != label.message@;
        reveal(label_text);
        assert(res@ =~= label_text(a, b, label@, width as nat, texts(source_lines@), quiet));
    }
    res
}

/// The first line of a report: `error: message`, then where it is.
fn report_head(path: &str, main_span: Span, message: &str) -> (r: String)
    ensures
        exists|on_head: bool| r@ == head_text(on_head, path@, main_span, message@),
{
    let mut res = magenta_bold("error: ");
    let ghost head = res@;
    string_push_str(&mut res, message);
    string_push_str(&mut res, "\n  > ");
    string_push_str(&mut res, path);
    string_push_str(&mut res, ":");
    let line_text = usize_text(main_span.start.line);
    string_push_str(&mut res, line_text.as_str());
    string_push_str(&mut res, ":");
    let col_text = usize_text(main_span.start.col);
    string_push_str(&mut res, col_text.as_str());
    string_push_str(&mut res, "\n");
    proof {
        lemma_painted(head, "error: "@, seq!['3', '5']);
        assert(res@ =~= head_text(head != "error: "@, path@, main_span, message@));
    }
    res
}

/// An edge of the frame: `width` spaces, the corner, and the rule.
fn frame_edge_line(width: usize, corner: &str, long: bool) -> (r: String)
    ensures
        r@ == frame_edge(width as nat, corner@, long),
{
    let line_len: usize = if long {
        60
    } else {
        50
    };
    let rule = repeat_char('\u{2500}', line_len);
    let pad = repeat_char(' ', width);
    let mut res = string_from(" ");
    string_push_str(&mut res, pad.as_str());
    string_push_str(&mut res, corner);
    string_push_str(&mut res, rule.as_str());
    string_push_str(&mut res, "\n");
    proof {
        reveal_strlit(" ");
        assert(res@ =~= frame_edge(width as nat, corner@, long));
    }
    res
}

/// The help line, `help: text`, or nothing when there is no help.
fn help_line(help: Option<&str>) -> (r: String)
    ensures
        exists|on_help: (bool, bool)| r@ == help_text(on_help, help_view(help)),
{
    let mut res = String::new();
    if let Some(h) = help {
        let lead = green_bold("help:");
        let body = green_bold(h);
        string_push_str(&mut res, lead.as_str());
        string_push_str(&mut res, " ");
        string_push_str(&mut res, body.as_str());
        string_push_str(&mut res, "\n");
        proof {
            lemma_painted(lead@, "help:"@, seq!['3', '2']);
            lemma_painted(body@, h@, seq!['3', '2']);
            assert(res@ =~= help_text((lead@ != "help:"@, body@ != h@), help_view(help)));
        }
    } else {
        assert(res@ =~= help_text((false, false), help_view(help)));
    }
    res
}

/// Renders a report: `error: message`, the place, a frame with the source
/// line of each label and its marks, and the help text.
pub fn render_report(
    path: &str,
    main_span: Span,
    message: &str,
    labels: &Vec<Label>,
    help: Option<&str>,
    source_lines: &Vec<String>,
) -> (r: String)
    requires
        labels.len() > 0,
    ensures
        exists|on_head: bool, cs: Seq<bool>, on_help: (bool, bool)|
            r@ == #[trigger] report_text(
                on_head,
                cs,
                on_help,
                path@,
                main_span,
                message@,
                labels_view(labels@),
                help_view(help),
                texts(source_lines@),
            ),
{
    let ghost lv = labels_view(labels@);
    let ghost lines = texts(source_lines@);
    let mut res = report_head(path, main_span, message);
    let ghost start = res@;
    let top_line = max_label_line(labels);
    let width_text = usize_text(top_line);
    let width = crate::text::chars_of(width_text.as_str()).len();
    let long = labels.len() != 1;
    let quiet = contains_text(message, "outside of a loop");
    let edge = frame_edge_line(width, "  \u{256d}\u{2500}", long);
    string_push_str(&mut res, edge.as_str());
    let ghost top = res@;
    let ghost mut cs: Seq<bool> = Seq::empty();
    let mut i: usize = 0;
    while i < labels.len()
        invariant
            i <= labels.len(),
            lv == labels_view(labels@),
            lines == texts(source_lines@),
            cs.len() == 2 * i,
            res@ == top + labels_text(cs, lv.take(i as int), width as nat, lines, quiet),
        decreases labels.len() - i,
    {
        let part = label_part(&labels[i], width, source_lines, quiet);
        let ghost before = res@;
        string_push_str(&mut res, part.as_str());
        proof {
            let (a, b) = choose|a: bool, b: bool|
                part@ == label_text(a, b, labels@[i as int]@, width as nat, lines, quiet);
            assert(lv.take(i + 1).drop_last() =~= lv.take(i as int));
            lemma_labels_text_step(cs, a, b, lv.take(i + 1), width as nat, lines, quiet);
            cs = cs.push(a).push(b);
            assert(res@ =~= top + labels_text(cs, lv.take(i + 1), width as nat, lines, quiet));
        }
        i = i + 1;
    }
    let ghost framed = res@;
    let bottom = frame_edge_line(width, "  \u{2570}\u{2500}", long);
    string_push_str(&mut res, bottom.as_str());
    let ghost closed = res@;
    let tail = help_line(help);
    string_push_str(&mut res, tail.as_str());
    proof {
        let on_head = choose|on: bool| start == head_text(on, path@, main_span, message@);
        let on_help = choose|oh: (bool, bool)| tail@ == help_text(oh, help_view(help));
        assert(lv.take(labels.len() as int) =~= lv);
        assert(res@ =~= report_text(on_head, cs, on_help, path@, main_span, message@, lv, help_view(help), lines));
    }
    res
}

} // verus!

verus! {

/// How a binding kind is named in reports.
pub open spec fn binding_kind_text(k: BindingKind) -> Seq<char> {
    match k {
        BindingKind::Let => "let-bound"@,
        BindingKind::Const => "const"@,
        BindingKind::Param => "parameter"@,
        BindingKind::Var => Seq::empty(),
    }
}

/// How a kind of definition is named in reports.
pub open spec fn definition_kind_text(k: DefinitionKind) -> Seq<char> {
    match k {
        DefinitionKind::Var => "variable"@,
        DefinitionKind::Fun => "function"@,
        DefinitionKind::Struct => "struct"@,
    }
}

/// How `break` and `continue` are named in reports.
pub open spec fn loop_control_text(k: LoopControlKind) -> Seq<char> {
    match k {
        LoopControlKind::Break => "break"@,
        LoopControlKind::Continue => "continue"@,
    }
}

/// The first line of the report of an error.
pub open spec fn summary_text(e: TypeError) -> Seq<char> {
    match e {
        TypeError::AssignmentToImmutable { name, kind, .. } => "couldn't assign again to "@ + binding_kind_text(kind)
            + " variable `"@ + name@ + "`"@,
        TypeError::DuplicateDefinition { name, def_kind, .. } => "couldn't re-define "@ + definition_kind_text(
            def_kind,
        ) + " `"@ + name@ + "`"@,
        TypeError::OutsideLoop { kind, .. } => "found `"@ + loop_control_text(kind) + "` outside of a loop"@,
        TypeError::MissingReturn { name, .. } => "there's no `return` in every path in `"@ + name@ + "` function"@,
        TypeError::Mismatch { .. } => "found mismatched types"@,
        TypeError::NoSuchMethod { ty, method, .. } => "no method named `"@ + method@ + "` found for type `"@
            + display_text(ty@) + "`"@,
        TypeError::MethodFoundAsGlobal { ty, method, .. } => "no method named `"@ + method@ + "` found for type `"@
            + display_text(ty@) + "`"@,
        TypeError::UnknownName { name, .. } => "found something undefined: `"@ + name@ + "`"@,
        TypeError::NotCallable { name, ty, .. } => "`"@ + name@ + "` isn't callable cause it has `"@ + display_text(
            ty@,
        ) + "` type"@,
        TypeError::ArityMismatch { name, expected, found, .. } => "function `"@ + name@ + "` takes "@ + digits_text(
            expected as nat,
        ) + " arguments but only "@ + digits_text(found as nat) + " were found"@,
        TypeError::UnknownField { struct_name, field, .. } => "struct `"@ + struct_name@
            + "` possibly has no field named `"@ + field@ + "`"@,
        TypeError::NoFields { ty, .. } => "cannot access field on non-struct type `"@ + display_text(ty@) + "`"@,
        TypeError::InvalidBinaryOperator { operator, left, right, .. } => "operator `"@ + token_debug_text(operator)
            + "` cannot be applied to types `"@ + display_text(left@) + "` and `"@ + display_text(right@) + "`"@,
        TypeError::InvalidUnaryOperator { operator, operand, .. } => "operator `"@ + token_debug_text(operator)
            + "` cannot be applied to type `"@ + display_text(operand@) + "`"@,
        TypeError::Unsupported { desc, .. } => desc@,
        TypeError::ConflictingEntryPoint { .. } => "program cannot have both top-level statements and a `main` function"@,
        TypeError::NotFullMatch { .. } => "not all cases in `match` expression are covered"@,
    }
}

/// The place a report of the error names.
pub open spec fn main_span_of(e: TypeError) -> Span {
    match e {
        TypeError::AssignmentToImmutable { assign_span, .. } => assign_span,
        TypeError::DuplicateDefinition { second_span, .. } => second_span,
        TypeError::OutsideLoop { span, .. } => span,
        TypeError::MissingReturn { func_span, .. } => func_span,
        TypeError::Mismatch { span, .. } => span,
        TypeError::NoSuchMethod { span, .. } => span,
        TypeError::MethodFoundAsGlobal { span, .. } => span,
        TypeError::UnknownName { span, .. } => span,
        TypeError::NotCallable { span, .. } => span,
        TypeError::ArityMismatch { span, .. } => span,
        TypeError::UnknownField { span, .. } => span,
        TypeError::NoFields { span, .. } => span,
        TypeError::InvalidBinaryOperator { span, .. } => span,
        TypeError::InvalidUnaryOperator { span, .. } => span,
        TypeError::Unsupported { span, .. } => span,
        TypeError::ConflictingEntryPoint { second_decl_span, .. } => second_decl_span,
        TypeError::NotFullMatch { span, .. } => span,
    }
}

/// The text of `s` with each `", "` written `sep`.
pub open spec fn rejoined(s: Seq<char>, sep: Seq<char>) -> Seq<char>
    decreases s.len(),
{
    if s.len() == 0 {
        Seq::empty()
    } else if s.len() >= 2 && s[0] == ',' && s[1] == ' ' {
        sep + rejoined(s.skip(2), sep)
    } else {
        seq![s[0]] + rejoined(s.skip(1), sep)
    }
}

/// The text of `s` before its first `", "`.
pub open spec fn first_piece(s: Seq<char>) -> Seq<char>
    decreases s.len(),
{
    if s.len() == 0 {
        Seq::empty()
    } else if s.len() >= 2 && s[0] == ',' && s[1] == ' ' {
        Seq::empty()
    } else {
        seq![s[0]] + first_piece(s.skip(1))
    }
}

/// A label of a report, on the file at `path`.
pub open spec fn label_at(span: Span, message: Seq<char>, path: Seq<char>, style: LabelStyle) -> LabelView {
    LabelView { file_path: path, span, message, style }
}

/// Whether `pat` occurs in `s`.
pub open spec fn occurs(s: Seq<char>, pat: Seq<char>) -> bool {
    exists|i: int| 0 <= i && i + pat.len() <= s.len() && #[trigger] s.subrange(i, i + pat.len()) == pat
}

/// The labels of the report of an error, in the order they are drawn.
pub open spec fn report_labels(e: TypeError, path: Seq<char>) -> Seq<LabelView> {
    match e {
        TypeError::AssignmentToImmutable { kind, decl_span, assign_span, .. } => seq![
            label_at(
                decl_span,
                "first variable defined as "@ + binding_kind_text(kind) + " here"@,
                path,
                LabelStyle::Secondary,
            ),
            label_at(
                assign_span,
                "couldn't assign to this "@ + binding_kind_text(kind) + " variable"@,
                path,
                LabelStyle::Primary,
            ),
        ],
        TypeError::DuplicateDefinition { name, first_span, second_span, def_kind } => seq![
            label_at(
                first_span,
                "first definition of "@ + definition_kind_text(def_kind) + " `"@ + name@ + "` is here"@,
                path,
                LabelStyle::Secondary,
            ),
            label_at(
                second_span,
                "second definition of "@ + definition_kind_text(def_kind) + " `"@ + name@ + "` is here"@,
                path,
                LabelStyle::Primary,
            ),
        ],
        TypeError::OutsideLoop { kind, span } => seq![
            label_at(span, "found `"@ + loop_control_text(kind) + "` word outside of a loop"@, path, LabelStyle::Primary),
        ],
        TypeError::MissingReturn { name, func_span, close_brace_span } => seq![
            label_at(func_span, "there is a definition of `"@ + name@ + "` function"@, path, LabelStyle::Secondary),
            label_at(close_brace_span, "missing return at the `"@ + name@ + "` function"@, path, LabelStyle::Primary),
        ],
        TypeError::Mismatch { expected, found, span } => seq![
            label_at(
                span,
                "there's a type mismatch, expected `"@ + display_text(expected@) + "`, got `"@ + display_text(found@)
                    + "`"@,
                path,
                LabelStyle::Primary,
            ),
        ],
        TypeError::NoSuchMethod { ty, span, .. } => seq![
            label_at(span, "method not found on type `"@ + display_text(ty@) + "`"@, path, LabelStyle::Primary),
        ],
        TypeError::MethodFoundAsGlobal { ty, span, .. } => seq![
            label_at(span, "method not found on type `"@ + display_text(ty@) + "`"@, path, LabelStyle::Primary),
        ],
        TypeError::UnknownName { name, span } => seq![
            label_at(span, "nothing is named like `"@ + name@ + "`"@, path, LabelStyle::Primary),
        ],
        TypeError::NotCallable { name, span, .. } => seq![
            label_at(span, "couldn't call `"@ + name@ + "` as a function"@, path, LabelStyle::Primary),
        ],
        TypeError::ArityMismatch { expected, found, span, .. } => seq![
            label_at(
                span,
                "expected "@ + digits_text(expected as nat) + " arguments, but found "@ + digits_text(found as nat),
                path,
                LabelStyle::Primary,
            ),
        ],
        TypeError::UnknownField { struct_name, field, span } => seq![
            label_at(
                span,
                "field `"@ + field@ + "` isn't found in struct `"@ + struct_name@ + "`"@,
                path,
                LabelStyle::Primary,
            ),
        ],
        TypeError::NoFields { ty, span } => seq![
            label_at(span, "type `"@ + display_text(ty@) + "` can have no fields"@, path, LabelStyle::Primary),
        ],
        TypeError::InvalidBinaryOperator { left, right, span, .. } => seq![
            label_at(
                span,
                "couldn't apply binary operator to `"@ + display_text(left@) + "` and `"@ + display_text(right@) + "`"@,
                path,
                LabelStyle::Primary,
            ),
        ],
        TypeError::InvalidUnaryOperator { operand, span, .. } => seq![
            label_at(
                span,
                "couldn't apply unary operator to type `"@ + display_text(operand@) + "`"@,
                path,
                LabelStyle::Primary,
            ),
        ],
        TypeError::Unsupported { desc, span } => seq![label_at(span, desc@, path, LabelStyle::Primary)],
        TypeError::ConflictingEntryPoint { first_decl_span, second_decl_span } => {
            let main_first = !(first_decl_span.start.line < second_decl_span.start.line);
            seq![
                label_at(
                    if main_first {
                        second_decl_span
                    } else {
                        first_decl_span
                    },
                    if main_first {
                        "explicit `main` function is defined here"@
                    } else {
                        "top-level code starts here"@
                    },
                    path,
                    LabelStyle::Secondary,
                ),
                label_at(
                    if main_first {
                        first_decl_span
                    } else {
                        second_decl_span
                    },
                    if main_first {
                        "conflicting top-level code cannot work together with `func main()`"@
                    } else {
                        "conflicting `func main()` cannot work together with top-level code"@
                    },
                    path,
                    LabelStyle::Primary,
                ),
            ]
        },
        TypeError::NotFullMatch { missed_patterns, span, .. } => seq![
            label_at(
                span,
                if occurs(missed_patterns@, ","@) {
                    "patterns `"@ + rejoined(missed_patterns@, "`, `"@) + "` are not covered"@
                } else {
                    "pattern `"@ + missed_patterns@ + "` is not covered"@
                },
                path,
                LabelStyle::Primary,
            ),
        ],
    }
}

/// The help line of the report of an error, if it has one.
pub open spec fn report_help(e: TypeError) -> Option<Seq<char>> {
    match e {
        TypeError::AssignmentToImmutable { name, kind, .. } => Some(
            match kind {
                BindingKind::Let => "variable was declared with `let`, consider using `var` to make it mutable"@,
                BindingKind::Const => "constants are immutable and cannot be reassigned"@,
                BindingKind::Param => "parameters are immutable by default, add `var` before the name: `var "@ + name@
                    + ": ...`"@,
                BindingKind::Var => Seq::empty(),
            },
        ),
        TypeError::DuplicateDefinition { def_kind, .. } => Some(
            "try to change "@ + definition_kind_text(def_kind) + " name pls"@,
        ),
        TypeError::OutsideLoop { kind, .. } => Some(
            "try to remove `"@ + loop_control_text(kind) + "` or move it into a loop pls"@,
        ),
        TypeError::MissingReturn { .. } => Some(
            "try to add `return` keyword with an expression at the end of function pls"@,
        ),
        TypeError::NoSuchMethod { ty, .. } => if ty@ is Int || ty@ is Float || ty@ is Bool || ty@ is String {
            Some("primitive types cannot have custom methods in Violette"@)
        } else {
            None
        },
        TypeError::MethodFoundAsGlobal { help, .. } => Some(help@),
        TypeError::NoFields { .. } => Some("field access `.` is only available on struct instances"@),
        TypeError::ConflictingEntryPoint { .. } => Some(
            "choose either scripting style or explicit `func main() { ... }`\n\t or just check your code for extra-entry points"@,
        ),
        TypeError::NotFullMatch { missed_patterns, .. } => Some(
            "try to add `"@ + first_piece(missed_patterns@) + " => { ... }` or `_ => { ... } pls`"@,
        ),
        _ => None,
    }
}

/// Three pieces one after another.
fn cat3(a: &str, b: &str, c: &str) -> (r: String)
    ensures
        r@ == a@ + b@ + c@,
{
    let mut r = string_from(a);
    string_push_str(&mut r, b);
    string_push_str(&mut r, c);
    r
}

/// Five pieces one after another.
fn cat5(a: &str, b: &str, c: &str, d: &str, e: &str) -> (r: String)
    ensures
        r@ == a@ + b@ + c@ + d@ + e@,
{
    let mut r = string_from(a);
    string_push_str(&mut r, b);
    string_push_str(&mut r, c);
    string_push_str(&mut r, d);
    string_push_str(&mut r, e);
    r
}

/// The pieces of `s` between the separators `", "`, joined again by `sep`.
fn rejoin_patterns(s: &str, sep: &str) -> (r: String)
    ensures
        r@ == rejoined(s@, sep@),
{
    let sc = crate::text::chars_of(s);
    let mut r = String::new();
    let mut i: usize = 0;
    assert(sc@.skip(0) =~= sc@);
    while i < sc.len()
        invariant
            i <= sc.len(),
            sc@ == s@,
            r@ + rejoined(sc@.skip(i as int), sep@) == rejoined(s@, sep@),
        decreases sc.len() - i,
    {
        let ghost rest = sc@.skip(i as int);
        if sc[i] == ',' && i + 1 < sc.len() && sc[i + 1] == ' ' {
            string_push_str(&mut r, sep);
            assert(rest.skip(2) =~= sc@.skip(i + 2));
            i = i + 2;
        } else {
            string_push(&mut r, sc[i]);
            assert(rest.skip(1) =~= sc@.skip(i + 1));
            i = i + 1;
        }
    }
    assert(sc@.skip(sc.len() as int) =~= Seq::<char>::empty());
    assert(r@ + Seq::<char>::empty() =~= r@);
    r
}

/// The text of `s` before the first `", "`.
fn first_pattern(s: &str) -> (r: String)
    ensures
        r@ == first_piece(s@),
{
    let sc = crate::text::chars_of(s);
    let mut r = String::new();
    let mut i: usize = 0;
    assert(sc@.skip(0) =~= sc@);
    while i < sc.len()
        invariant
            i <= sc.len(),
            sc@ == s@,
            r@ + first_piece(sc@.skip(i as int)) == first_piece(s@),
        decreases sc.len() - i,
    {
        let ghost rest = sc@.skip(i as int);
        if sc[i] == ',' && i + 1 < sc.len() && sc[i + 1] == ' ' {
            assert(r@ + Seq::<char>::empty() =~= r@);
            return r;
        }
        string_push(&mut r, sc[i]);
        assert(rest.skip(1) =~= sc@.skip(i + 1));
        i = i + 1;
    }
    assert(sc@.skip(sc.len() as int) =~= Seq::<char>::empty());
    assert(r@ + Seq::<char>::empty() =~= r@);
    r
}

/// A list of one label.
fn one_label(l: Label) -> (r: Vec<Label>)
    ensures
        labels_view(r@) == seq![l@],
        r.len() == 1,
{
    let ghost v = l@;
    let mut r: Vec<Label> = Vec::new();
    r.push(l);
    assert(labels_view(r@) =~= seq![v]);
    r
}

/// A list of two labels.
fn two_labels(a: Label, b: Label) -> (r: Vec<Label>)
    ensures
        labels_view(r@) == seq![a@, b@],
        r.len() == 2,
{
    let ghost (va, vb) = (a@, b@);
    let mut r: Vec<Label> = Vec::new();
    r.push(a);
    r.push(b);
    assert(labels_view(r@) =~= seq![va, vb]);
    r
}


/// The first line, place, labels and help text of the report of an error.
fn report_parts(e: &TypeError, p: &String) -> (r: (String, Span, Vec<Label>, Option<String>))
    requires
        e.can_report(),
    ensures
        r.0@ == summary_text(*e),
        r.1 == main_span_of(*e),
        r.2.len() > 0,
        labels_view(r.2@) == report_labels(*e, p@),
        match r.3 {
            Some(h) => report_help(*e) == Some(h@),
            None => report_help(*e) is None,
        },
{
    proof {
        reveal_strlit("");
    }
    match e {

            TypeError::AssignmentToImmutable { name, kind, decl_span, assign_span } => {
                let (kind_str, help): (&str, String) = match kind {
                    BindingKind::Let => (
                        "let-bound",
                        string_from("variable was declared with `let`, consider using `var` to make it mutable"),
                    ),
                    BindingKind::Const => ("const", string_from("constants are immutable and cannot be reassigned")),
                    BindingKind::Param => (
                        "parameter",
                        cat3(
                            "parameters are immutable by default, add `var` before the name: `var ",
                            name.as_str(),
                            ": ...`",
                        ),
                    ),
                    BindingKind::Var => ("", String::new()),
                };
                proof {
                    reveal_strlit("let-bound");
                    reveal_strlit("const");
                    reveal_strlit("parameter");
                    reveal_strlit("");
                }
                let labels = two_labels(
                    Label::secondary(*decl_span, cat3("first variable defined as ", kind_str, " here"), p.clone()),
                    Label::primary(*assign_span, cat3("couldn't assign to this ", kind_str, " variable"), p.clone()),
                );
                let summary = cat5("couldn't assign again to ", kind_str, " variable `", name.as_str(), "`");
                (summary, *assign_span, labels, Some(help))
            },
            TypeError::DuplicateDefinition { name, first_span, second_span, def_kind } => {
                let kind_str: &str = match def_kind {
                    DefinitionKind::Var => "variable",
                    DefinitionKind::Fun => "function",
                    DefinitionKind::Struct => "struct",
                };
                proof {
                    reveal_strlit("variable");
                    reveal_strlit("function");
                    reveal_strlit("struct");
                }
                let mut first = cat3("first definition of ", kind_str, " `");
                string_push_str(&mut first, name.as_str());
                string_push_str(&mut first, "` is here");
                let mut second = cat3("second definition of ", kind_str, " `");
                string_push_str(&mut second, name.as_str());
                string_push_str(&mut second, "` is here");
                let labels = two_labels(
                    Label::secondary(*first_span, first, p.clone()),
                    Label::primary(*second_span, second, p.clone()),
                );
                let summary = cat5("couldn't re-define ", kind_str, " `", name.as_str(), "`");
                let help = cat3("try to change ", kind_str, " name pls");
                (summary, *second_span, labels, Some(help))
            },
            TypeError::OutsideLoop { kind, span } => {
                let kind_str: &str = match kind {
                    LoopControlKind::Break => "break",
                    LoopControlKind::Continue => "continue",
                };
                proof {
                    reveal_strlit("break");
                    reveal_strlit("continue");
                }
                let labels = one_label(
                    Label::primary(*span, cat3("found `", kind_str, "` word outside of a loop"), p.clone()),
                );
                let summary = cat3("found `", kind_str, "` outside of a loop");
                let help = cat3("try to remove `", kind_str, "` or move it into a loop pls");
                (summary, *span, labels, Some(help))
            },
            TypeError::MissingReturn { name, func_span, close_brace_span } => {
                let labels = two_labels(
                    Label::secondary(
                        *func_span,
                        cat3("there is a definition of `", name.as_str(), "` function"),
                        p.clone(),
                    ),
                    Label::primary(*close_brace_span, cat3("missing return at the `", name.as_str(), "` function"), p.clone()),
                );
                let summary = cat3("there's no `return` in every path in `", name.as_str(), "` function");
                (
                    summary,
                    *func_span,
                    labels,
                    Some(string_from("try to add `return` keyword with an expression at the end of function pls")),
                )
            },
            TypeError::Mismatch { expected, found, span } => {
                let e = expected.text();
                let f = found.text();
                let note = cat5("there's a type mismatch, expected `", e.as_str(), "`, got `", f.as_str(), "`");
                let labels = one_label(
                    Label::primary(*span, note, p.clone()),
                );
                (string_from("found mismatched types"), *span, labels, None)
            },
            TypeError::NoSuchMethod { ty, method, span } => {
                let t = ty.text();
                let labels = one_label(
                    Label::primary(*span, cat3("method not found on type `", t.as_str(), "`"), p.clone()),
                );
                let mut summary = cat3("no method named `", method.as_str(), "` found for type `");
                string_push_str(&mut summary, t.as_str());
                string_push_str(&mut summary, "`");
                let help: Option<String> = match ty {
                    Ty::Int | Ty::Float | Ty::Bool | Ty::String => Some(
                        string_from("primitive types cannot have custom methods in Violette"),
                    ),
                    _ => None,
                };
                (summary, *span, labels, help)
            },
            TypeError::MethodFoundAsGlobal { ty, method, span, help } => {
                let t = match ty {
                    Ty::Struct(s) => s.clone(),
                    _ => ty.text(),
                };
                let labels = one_label(
                    Label::primary(*span, cat3("method not found on type `", t.as_str(), "`"), p.clone()),
                );
                let mut summary = cat3("no method named `", method.as_str(), "` found for type `");
                string_push_str(&mut summary, t.as_str());
                string_push_str(&mut summary, "`");
                (summary, *span, labels, Some(help.clone()))
            },
            TypeError::UnknownName { name, span } => {
                let labels = one_label(
                    Label::primary(*span, cat3("nothing is named like `", name.as_str(), "`"), p.clone()),
                );
                let summary = cat3("found something undefined: `", name.as_str(), "`");
                (summary, *span, labels, None)
            },
            TypeError::NotCallable { name, ty, span } => {
                let labels = one_label(
                    Label::primary(*span, cat3("couldn't call `", name.as_str(), "` as a function"), p.clone()),
                );
                let t = ty.text();
                let summary = cat5("`", name.as_str(), "` isn't callable cause it has `", t.as_str(), "` type");
                (summary, *span, labels, None)
            },
            TypeError::ArityMismatch { name, expected, found, span } => {
                let e = usize_text(*expected);
                let f = usize_text(*found);
                let labels = one_label(
                    Label::primary(*span, cat5("expected ", e.as_str(), " arguments, but found ", f.as_str(), ""), p.clone()),
                );
                let mut summary = cat5("function `", name.as_str(), "` takes ", e.as_str(), " arguments but only ");
                string_push_str(&mut summary, f.as_str());
                string_push_str(&mut summary, " were found");
                (summary, *span, labels, None)
            },
            TypeError::UnknownField { struct_name, field, span } => {
                let labels = one_label(
                    Label::primary(
                        *span,
                        cat5("field `", field.as_str(), "` isn't found in struct `", struct_name.as_str(), "`"),
                        p.clone(),
                    ),
                );
                let summary = cat5(
                    "struct `",
                    struct_name.as_str(),
                    "` possibly has no field named `",
                    field.as_str(),
                    "`",
                );
                (summary, *span, labels, None)
            },
            TypeError::NoFields { ty, span } => {
                let t = ty.text();
                let labels = one_label(
                    Label::primary(*span, cat3("type `", t.as_str(), "` can have no fields"), p.clone()),
                );
                let summary = cat3("cannot access field on non-struct type `", t.as_str(), "`");
                (summary, *span, labels, Some(string_from("field access `.` is only available on struct instances")))
            },
            TypeError::InvalidBinaryOperator { operator, left, right, span } => {
                let l = left.text();
                let r = right.text();
                let labels = one_label(
                    Label::primary(
                        *span,
                        cat5("couldn't apply binary operator to `", l.as_str(), "` and `", r.as_str(), "`"),
                        p.clone(),
                    ),
                );
                let o = token_debug(operator);
                let mut summary = cat5("operator `", o.as_str(), "` cannot be applied to types `", l.as_str(), "` and `");
                string_push_str(&mut summary, r.as_str());
                string_push_str(&mut summary, "`");
                (summary, *span, labels, None)
            },
            TypeError::InvalidUnaryOperator { operator, operand, span } => {
                let t = operand.text();
                let labels = one_label(
                    Label::primary(*span, cat3("couldn't apply unary operator to type `", t.as_str(), "`"), p.clone()),
                );
                let o = token_debug(operator);
                let summary = cat5("operator `", o.as_str(), "` cannot be applied to type `", t.as_str(), "`");
                (summary, *span, labels, None)
            },
            TypeError::Unsupported { desc, span } => {
                let labels = one_label(
                    Label::primary(*span, desc.clone(), p.clone()),
                );
                (desc.clone(), *span, labels, None)
            },
            TypeError::ConflictingEntryPoint { first_decl_span, second_decl_span } => {
                let main_first = !(first_decl_span.start.line < second_decl_span.start.line);
                let (earlier, later) = if main_first {
                    (*second_decl_span, *first_decl_span)
                } else {
                    (*first_decl_span, *second_decl_span)
                };
                let first_msg = if main_first {
                    "explicit `main` function is defined here"
                } else {
                    "top-level code starts here"
                };
                let second_msg = if main_first {
                    "conflicting top-level code cannot work together with `func main()`"
                } else {
                    "conflicting `func main()` cannot work together with top-level code"
                };
                let labels = two_labels(
                    Label::secondary(earlier, string_from(first_msg), p.clone()),
                    Label::primary(later, string_from(second_msg), p.clone()),
                );
                (
                    string_from("program cannot have both top-level statements and a `main` function"),
                    *second_decl_span,
                    labels,
                    Some(
                        string_from(
                            "choose either scripting style or explicit `func main() { ... }`\n\t or just check your code for extra-entry points",
                        ),
                    ),
                )
            },
            TypeError::NotFullMatch { missed_patterns, span, .. } => {
                let note = if contains_text(missed_patterns.as_str(), ",") {
                    let listed = rejoin_patterns(missed_patterns.as_str(), "`, `");
                    cat3("patterns `", listed.as_str(), "` are not covered")
                } else {
                    cat3("pattern `", missed_patterns.as_str(), "` is not covered")
                };
                let labels = one_label(
                    Label::primary(*span, note, p.clone()),
                );
                let first = first_pattern(missed_patterns.as_str());
                let help = cat3("try to add `", first.as_str(), " => { ... }` or `_ => { ... } pls`");
                (string_from("not all cases in `match` expression are covered"), *span, labels, Some(help))
            },
        }
    }


impl Diagnostics for TypeError {
    open spec fn can_report(&self) -> bool {
        !(self matches TypeError::AssignmentToImmutable { kind: BindingKind::Var, .. })
    }

    fn message(&self, path: &str, source_lines: &Vec<String>) -> (r: String)
        ensures
            exists|on_head: bool, cs: Seq<bool>, on_help: (bool, bool)|
                r@ == #[trigger] report_text(
                    on_head,
                    cs,
                    on_help,
                    path@,
                    main_span_of(*self),
                    summary_text(*self),
                    report_labels(*self, path@),
                    report_help(*self),
                    texts(source_lines@),
                ),
    {
        let p = string_from(path);
        let (summary, span, labels, help) = report_parts(self, &p);
        let help_text: Option<&str> = match &help {
            Some(h) => Some(h.as_str()),
            None => None,
        };
        assert(help_view(help_text) == report_help(*self));
        self.report(p, span, summary, &labels, help_text, source_lines)
    }

    fn report(
        &self,
        path: String,
        main_span: Span,
        message: String,
        labels: &Vec<Label>,
        help: Option<&str>,
        source_lines: &Vec<String>,
    ) -> (r: String)
        ensures
            exists|on_head: bool, cs: Seq<bool>, on_help: (bool, bool)|
                r@ == #[trigger] report_text(
                    on_head,
                    cs,
                    on_help,
                    path@,
                    main_span,
                    message@,
                    labels_view(labels@),
                    help_view(help),
                    texts(source_lines@),
                ),
    {
        render_report(path.as_str(), main_span, message.as_str(), labels, help, source_lines)
    }
}

} // verus!

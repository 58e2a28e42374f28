//! The human-readable report of an analysis: its lines, each with the tone
//! it is shown in.
use vstd::prelude::*;
use crate::analysis::{AnalysisResult, UnusedKey, UnusedView};
use crate::source::{join, join_strings, usage_views, Usage, UsageView};
use crate::strings::strs;
use crate::text::{owned, push_char, push_str};

verus! {

/// How a report line is shown.
#[derive(PartialEq, Eq, Structural, Debug)]
pub enum Tone {
    /// Ordinary text.
    Plain,
    /// The summary heading.
    Summary,
    /// The heading of the unused keys.
    Unused,
    /// The heading of the dynamic usages.
    Dynamic,
    /// The message that nothing was found.
    Success,
}

/// One line of a report.
pub struct ReportLine {
    pub tone: Tone,
    pub text: String,
}

impl View for ReportLine {
    type V = (Tone, Seq<char>);

    open spec fn view(&self) -> (Tone, Seq<char>) {
        (self.tone, self.text@)
    }
}

/// The character of a decimal digit.
pub open spec fn digit_char(d: nat) -> char {
    if d == 0 {
        '0'
    } else if d == 1 {
        '1'
    } else if d == 2 {
        '2'
    } else if d == 3 {
        '3'
    } else if d == 4 {
        '4'
    } else if d == 5 {
        '5'
    } else if d == 6 {
        '6'
    } else if d == 7 {
        '7'
    } else if d == 8 {
        '8'
    } else {
        '9'
    }
}

/// The decimal digits of `n`, without leading zeros.
pub open spec fn decimal(n: nat) -> Seq<char>
    decreases n,
{
    if n < 10 {
        seq![digit_char(n)]
    } else {
        decimal(n / 10).push(digit_char(n % 10))
    }
}

/// `t` with spaces in front, to a width of at least `w`.
pub open spec fn right_aligned(t: Seq<char>, w: nat) -> Seq<char> {
    if t.len() >= w {
        t
    } else {
        Seq::new((w - t.len()) as nat, |i: int| ' ') + t
    }
}

/// A summary line: `label`, then the count right-aligned to five places.
pub open spec fn count_line(label: Seq<char>, n: nat) -> Seq<char> {
    label + right_aligned(decimal(n), 5)
}

/// The line of an unused key: its namespace in brackets, then the key.
pub open spec fn unused_line(u: UnusedView) -> Seq<char> {
    "  ["@ + u.namespace + "] -> "@ + u.key
}

/// The line of a dynamic usage: where it is, then its namespaces.
pub open spec fn dynamic_line(u: UsageView) -> Seq<char> {
    "  "@ + u.path + ":"@ + decimal(u.line as nat) + if u.namespaces.len() == 0 {
        " -> (no namespace)"@
    } else {
        " -> ["@ + join(u.namespaces, ", "@) + "]"@
    }
}

/// The message shown when nothing is unused and nothing is dynamic.
pub open spec fn success_message() -> Seq<char> {
    "No unused keys or dynamic usages found."@
}

/// The lines of a report: the summary of the counts; then the success
/// message when there is nothing to list, else a section of the unused keys
/// and one of the dynamic usages, each only when it has entries; a blank
/// line before the message and before each section.
pub open spec fn spec_report(used: nat, unused: Seq<UnusedView>, dynamic: Seq<UsageView>) -> Seq<(Tone, Seq<char>)> {
    let head = seq![
        (Tone::Summary, "Summary"@),
        (Tone::Plain, count_line("  Used keys:      "@, used)),
        (Tone::Plain, count_line("  Unused keys:    "@, unused.len())),
        (Tone::Plain, count_line("  Dynamic usages: "@, dynamic.len())),
    ];
    if unused.len() == 0 && dynamic.len() == 0 {
        head + seq![(Tone::Plain, Seq::empty()), (Tone::Success, success_message())]
    } else {
        let u = if unused.len() == 0 {
            Seq::empty()
        } else {
            seq![(Tone::Plain, Seq::empty()), (Tone::Unused, "Unused keys"@)] + unused.map_values(
                |x: UnusedView| (Tone::Plain, unused_line(x)),
            )
        };
        let d = if dynamic.len() == 0 {
            Seq::empty()
        } else {
            seq![(Tone::Plain, Seq::empty()), (Tone::Dynamic, "Dynamic usages"@)] + dynamic.map_values(
                |x: UsageView| (Tone::Plain, dynamic_line(x)),
            )
        };
        head + u + d
    }
}

/// The views of report lines.
pub open spec fn line_views(lines: Seq<ReportLine>) -> Seq<(Tone, Seq<char>)> {
    lines.map_values(|l: ReportLine| l@)
}

/// The digit character of `d`.
fn digit(d: usize) -> (c: char)
    requires
        d < 10,
    ensures
        c == digit_char(d as nat),
{
    if d == 0 {
        '0'
    } else if d == 1 {
        '1'
    } else if d == 2 {
        '2'
    } else if d == 3 {
        '3'
    } else if d == 4 {
        '4'
    } else if d == 5 {
        '5'
    } else if d == 6 {
        '6'
    } else if d == 7 {
        '7'
    } else if d == 8 {
        '8'
    } else {
        '9'
    }
}

/// Appends the decimal digits of `n`.
fn push_decimal(s: &mut String, n: usize)
    ensures
        final(s)@ == old(s)@ + decimal(n as nat),
    decreases n,
{
    if n >= 10 {
        push_decimal(s, n / 10);
    }
    push_char(s, digit(n % 10));
    assert(final(s)@ =~= old(s)@ + decimal(n as nat)) by {
        if n < 10 {
            assert(n % 10 == n);
        }
    }
}

/// `label`, then `n` right-aligned to five places.
fn count_text(label: &str, n: usize) -> (s: String)
    ensures
        s@ == count_line(label@, n as nat),
{
    let mut digits = String::new();
    push_decimal(&mut digits, n);
    assert(digits@ =~= decimal(n as nat));
    let width = crate::text::chars_of(digits.as_str()).len();
    let mut s = owned(label);
    let mut i: usize = width;
    while i < 5
        invariant
            width == decimal(n as nat).len(),
            width <= i <= 5 || (width > 5 && i == width),
            i >= 5 ==> (width >= 5 || i == 5),
            s@ == label@ + Seq::new((i - width) as nat, |j: int| ' '),
        decreases 5 - i,
    {
        let ghost before = s@;
        push_char(&mut s, ' ');
        assert(Seq::new((i + 1 - width) as nat, |j: int| ' ') =~= Seq::new((i - width) as nat, |j: int| ' ').push(' '));
        i += 1;
    }
    push_str(&mut s, digits.as_str());
    proof {
        if width >= 5 {
            assert(Seq::new((i - width) as nat, |j: int| ' ') =~= Seq::<char>::empty());
            assert(s@ =~= label@ + decimal(n as nat));
        } else {
            assert(i == 5);
            assert(s@ =~= label@ + (Seq::new((5 - width) as nat, |j: int| ' ') + decimal(n as nat)));
        }
    }
    s
}

/// The line of an unused key.
fn unused_text(u: &UnusedKey) -> (s: String)
    ensures
        s@ == unused_line(u@),
{
    let mut s = owned("  [");
    push_str(&mut s, u.namespace.as_str());
    push_str(&mut s, "] -> ");
    push_str(&mut s, u.key.as_str());
    s
}

/// The line of a dynamic usage.
fn dynamic_text(u: &Usage) -> (s: String)
    ensures
        s@ == dynamic_line(u@),
{
    let mut s = owned("  ");
    push_str(&mut s, u.path.as_str());
    push_str(&mut s, ":");
    push_decimal(&mut s, u.line);
    if u.namespaces.len() == 0 {
        push_str(&mut s, " -> (no namespace)");
    } else {
        push_str(&mut s, " -> [");
        let names = join_strings(&u.namespaces, ", ");
        push_str(&mut s, names.as_str());
        push_str(&mut s, "]");
    }
    s
}

/// A line shown in `tone`.
fn line(tone: Tone, text: String) -> (l: ReportLine)
    ensures
        l@ == (tone, text@),
{
    ReportLine { tone, text }
}

/// The lines that report `result`.
pub fn report_lines(result: &AnalysisResult) -> (lines: Vec<ReportLine>)
    ensures
        line_views(lines@) == spec_report(
            (if result.total_keys >= result.unused_keys@.len() {
                result.total_keys - result.unused_keys@.len()
            } else {
                0
            }) as nat,
            result.unused_keys@.map_values(|k: UnusedKey| k@),
            usage_views(result.dynamic_usages@),
        ),
{
    let ghost unused = result.unused_keys@.map_values(|k: UnusedKey| k@);
    let ghost dynamic = usage_views(result.dynamic_usages@);
    let used = result.used_count();
    let mut lines: Vec<ReportLine> = Vec::new();
    lines.push(line(Tone::Summary, owned("Summary")));
    lines.push(line(Tone::Plain, count_text("  Used keys:      ", used)));
    lines.push(line(Tone::Plain, count_text("  Unused keys:    ", result.unused_keys.len())));
    lines.push(line(Tone::Plain, count_text("  Dynamic usages: ", result.dynamic_usages.len())));
    let ghost head = line_views(lines@);
    assert(head =~= seq![
        (Tone::Summary, "Summary"@),
        (Tone::Plain, count_line("  Used keys:      "@, used as nat)),
        (Tone::Plain, count_line("  Unused keys:    "@, unused.len())),
        (Tone::Plain, count_line("  Dynamic usages: "@, dynamic.len())),
    ]);
    let ghost u = if unused.len() == 0 {
        Seq::empty()
    } else {
        seq![(Tone::Plain, Seq::<char>::empty()), (Tone::Unused, "Unused keys"@)] + unused.map_values(
            |x: UnusedView| (Tone::Plain, unused_line(x)),
        )
    };
    let ghost d = if dynamic.len() == 0 {
        Seq::empty()
    } else {
        seq![(Tone::Plain, Seq::<char>::empty()), (Tone::Dynamic, "Dynamic usages"@)] + dynamic.map_values(
            |x: UsageView| (Tone::Plain, dynamic_line(x)),
        )
    };
    if result.unused_keys.len() == 0 && result.dynamic_usages.len() == 0 {
        lines.push(line(Tone::Plain, String::new()));
        lines.push(line(Tone::Success, owned("No unused keys or dynamic usages found.")));
        assert(line_views(lines@) =~= head + seq![(Tone::Plain, Seq::<char>::empty()), (Tone::Success, success_message())]);
        return lines;
    }
    if result.unused_keys.len() > 0 {
        lines.push(line(Tone::Plain, String::new()));
        lines.push(line(Tone::Unused, owned("Unused keys")));
        let ghost start = line_views(lines@);
        let mut i: usize = 0;
        while i < result.unused_keys.len()
            invariant
                i <= result.unused_keys@.len(),
                unused == result.unused_keys@.map_values(|k: UnusedKey| k@),
                line_views(lines@) == start + unused.take(i as int).map_values(|x: UnusedView| (Tone::Plain, unused_line(x))),
            decreases result.unused_keys@.len() - i,
        {
            let ghost before = line_views(lines@);
            lines.push(line(Tone::Plain, unused_text(&result.unused_keys[i])));
            assert(line_views(lines@) =~= before.push((Tone::Plain, unused_line(unused[i as int]))));
            assert(unused.take(i + 1) =~= unused.take(i as int).push(unused[i as int]));
            i += 1;
            assert(line_views(lines@) =~= start + unused.take(i as int).map_values(
                |x: UnusedView| (Tone::Plain, unused_line(x)),
            ));
        }
        assert(unused.take(i as int) =~= unused);
        assert(line_views(lines@) =~= head + u);
    } else {
        assert(line_views(lines@) =~= head + u);
    }
    let ghost middle = line_views(lines@);
    if result.dynamic_usages.len() > 0 {
        lines.push(line(Tone::Plain, String::new()));
        lines.push(line(Tone::Dynamic, owned("Dynamic usages")));
        let ghost start = line_views(lines@);
        let mut j: usize = 0;
        while j < result.dynamic_usages.len()
            invariant
                j <= result.dynamic_usages@.len(),
                dynamic == usage_views(result.dynamic_usages@),
                line_views(lines@) == start + dynamic.take(j as int).map_values(|x: UsageView| (Tone::Plain, dynamic_line(x))),
            decreases result.dynamic_usages@.len() - j,
        {
            let ghost before = line_views(lines@);
            lines.push(line(Tone::Plain, dynamic_text(&result.dynamic_usages[j])));
            assert(line_views(lines@) =~= before.push((Tone::Plain, dynamic_line(dynamic[j as int]))));
            assert(dynamic.take(j + 1) =~= dynamic.take(j as int).push(dynamic[j as int]));
            j += 1;
            assert(line_views(lines@) =~= start + dynamic.take(j as int).map_values(
                |x: UsageView| (Tone::Plain, dynamic_line(x)),
            ));
        }
        assert(dynamic.take(j as int) =~= dynamic);
        assert(line_views(lines@) =~= middle + d);
    } else {
        assert(line_views(lines@) =~= middle + d);
    }
    assert(line_views(lines@) =~= spec_report(used as nat, unused, dynamic));
    lines
}

/// Every unused key has its line in the report, its namespace in brackets
/// and then the key; every dynamic usage has its line; and the success
/// message appears exactly when nothing is unused and nothing is dynamic.
pub proof fn law_report_lists_findings(used: nat, unused: Seq<UnusedView>, dynamic: Seq<UsageView>)
    ensures
        forall|i: int|
            0 <= i < unused.len() ==> spec_report(used, unused, dynamic).contains(
                (Tone::Plain, "  ["@ + (#[trigger] unused[i]).namespace + "] -> "@ + unused[i].key),
            ),
        forall|i: int|
            0 <= i < dynamic.len() ==> spec_report(used, unused, dynamic).contains(
                (Tone::Plain, dynamic_line(#[trigger] dynamic[i])),
            ),
        spec_report(used, unused, dynamic).contains((Tone::Success, "No unused keys or dynamic usages found."@))
            <==> (unused.len() == 0 && dynamic.len() == 0),
{
    let r = spec_report(used, unused, dynamic);
    let head = seq![
        (Tone::Summary, "Summary"@),
        (Tone::Plain, count_line("  Used keys:      "@, used)),
        (Tone::Plain, count_line("  Unused keys:    "@, unused.len())),
        (Tone::Plain, count_line("  Dynamic usages: "@, dynamic.len())),
    ];
    let success = (Tone::Success, "No unused keys or dynamic usages found."@);
    if unused.len() == 0 && dynamic.len() == 0 {
        assert(r[5] == success);
    } else {
        let u = if unused.len() == 0 {
            Seq::empty()
        } else {
            seq![(Tone::Plain, Seq::<char>::empty()), (Tone::Unused, "Unused keys"@)] + unused.map_values(
                |x: UnusedView| (Tone::Plain, unused_line(x)),
            )
        };
        let d = if dynamic.len() == 0 {
            Seq::empty()
        } else {
            seq![(Tone::Plain, Seq::<char>::empty()), (Tone::Dynamic, "Dynamic usages"@)] + dynamic.map_values(
                |x: UsageView| (Tone::Plain, dynamic_line(x)),
            )
        };
        assert(r == head + u + d);
        assert forall|i: int| 0 <= i < unused.len() implies r.contains(
            (Tone::Plain, "  ["@ + (#[trigger] unused[i]).namespace + "] -> "@ + unused[i].key),
        ) by {
            assert(r[4 + 2 + i] == (Tone::Plain, unused_line(unused[i])));
        }
        assert forall|i: int| 0 <= i < dynamic.len() implies r.contains((Tone::Plain, dynamic_line(#[trigger] dynamic[i]))) by {
            assert(r[4 + u.len() + 2 + i] == (Tone::Plain, dynamic_line(dynamic[i])));
        }
        if r.contains(success) {
            let k = choose|k: int| 0 <= k < r.len() && r[k] == success;
            if k < 4 {
                assert(head[k].0 != Tone::Success);
            } else if k < 4 + u.len() {
                assert(u[k - 4].0 != Tone::Success);
            } else {
                assert(d[k - 4 - u.len()].0 != Tone::Success);
            }
        }
    }
}

} // verus!

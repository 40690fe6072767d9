//! The report of a benchmark run.
use crate::text::{decimal, decimal_bytes, same_text};
use vstd::prelude::*;
use vstd::string::StringExecFns;

verus! {

/// The compute units that each case of the benchmark took, for both programs.
pub struct Results {
    pub anchor: Vec<(&'static str, u64)>,
    pub quasar: Vec<(&'static str, u64)>,
}

/// The flamegraph of a case, where one was generated: its path as it stands in
/// the report.
pub struct Flame {
    pub label: &'static str,
    pub path: Option<String>,
}

/// A line of the table of results: a case, and what it took.
pub struct Row {
    pub label: &'static str,
    pub anchor_cu: u64,
    pub quasar_cu: Option<u64>,
}

/// What a case took: the first measurement with its label, from `i` on.
pub open spec fn measured(list: Seq<(&'static str, u64)>, label: Seq<char>, i: int) -> Option<u64>
    decreases list.len() - i,
{
    if i >= list.len() {
        None
    } else if list[i].0@ == label {
        Some(list[i].1)
    } else {
        measured(list, label, i + 1)
    }
}

/// Finds what a case took.
fn find_measured(list: &Vec<(&'static str, u64)>, label: &str) -> (r: Option<u64>)
    ensures
        r == measured(list@, label@, 0),
{
    let mut i: usize = 0;
    while i < list.len()
        invariant
            i <= list@.len(),
            measured(list@, label@, 0) == measured(list@, label@, i as int),
        decreases list@.len() - i,
    {
        if same_text(list[i].0, label) {
            return Some(list[i].1);
        }
        i = i + 1;
    }
    None
}

impl Results {
    /// No results yet.
    pub fn new() -> (r: Results)
        ensures
            r.anchor@.len() == 0,
            r.quasar@.len() == 0,
    {
        Results { anchor: Vec::new(), quasar: Vec::new() }
    }

    /// The line for the first program's case with number `i`.
    pub open spec fn row(&self, i: int) -> Row {
        Row {
            label: self.anchor@[i].0,
            anchor_cu: self.anchor@[i].1,
            quasar_cu: measured(self.quasar@, self.anchor@[i].0@, 0),
        }
    }

    /// The lines of the table: one for each case of the first program, with
    /// what the second took for it.
    pub fn rows(&self) -> (r: Vec<Row>)
        ensures
            r@.len() == self.anchor@.len(),
            forall|i: int| 0 <= i < r@.len() ==> #[trigger] r@[i] == self.row(i),
    {
        let mut rows: Vec<Row> = Vec::new();
        let mut i: usize = 0;
        while i < self.anchor.len()
            invariant
                i <= self.anchor@.len(),
                rows@.len() == i,
                forall|j: int| 0 <= j < i ==> #[trigger] rows@[j] == self.row(j),
            decreases self.anchor@.len() - i,
        {
            let (label, anchor_cu) = self.anchor[i];
            let quasar_cu = find_measured(&self.quasar, label);
            rows.push(Row { label, anchor_cu, quasar_cu });
            i = i + 1;
        }
        rows
    }
}

/// A number in decimal, as characters.
pub open spec fn decimal_text(n: u64) -> Seq<char> {
    decimal(n as nat).map_values(|b: u8| b as char)
}

/// Appends a number in decimal.
fn append_decimal(s: &mut String, n: u64)
    ensures
        final(s)@ == old(s)@ + decimal_text(n),
{
    let digits = decimal_bytes(n as u128);
    let ghost before = s@;
    let mut i: usize = 0;
    proof {
        crate::text::lemma_decimal(n as nat);
        reveal_strlit("0");
        reveal_strlit("1");
        reveal_strlit("2");
        reveal_strlit("3");
        reveal_strlit("4");
        reveal_strlit("5");
        reveal_strlit("6");
        reveal_strlit("7");
        reveal_strlit("8");
        reveal_strlit("9");
    }
    while i < digits.len()
        invariant
            i <= digits@.len(),
            digits@ == decimal(n as nat),
            crate::text::all_digits(digits@),
            s@ =~= before + decimal_text(n).take(i as int),
        decreases digits@.len() - i,
    {
        let ghost so_far = s@;
        let b: u8 = digits[i];
        let digit = match b {
            48 => "0",
            49 => "1",
            50 => "2",
            51 => "3",
            52 => "4",
            53 => "5",
            54 => "6",
            55 => "7",
            56 => "8",
            _ => "9",
        };
        proof {
            reveal_strlit("0");
            reveal_strlit("1");
            reveal_strlit("2");
            reveal_strlit("3");
            reveal_strlit("4");
            reveal_strlit("5");
            reveal_strlit("6");
            reveal_strlit("7");
            reveal_strlit("8");
            reveal_strlit("9");
        }
        assert(digit@ =~= seq![b as char]);
        s.append(digit);
        assert(decimal_text(n).take(i as int + 1) =~= decimal_text(n).take(i as int).push(
            b as char,
        ));
        i = i + 1;
    }
    assert(decimal_text(n).take(i as int) =~= decimal_text(n));
}

/// Whether the second program is no better than the first: it takes no less.
/// Nothing against nothing counts as better.
pub open spec fn is_loss(anchor: u64, quasar: u64) -> bool {
    if anchor == 0 {
        quasar > 0
    } else {
        quasar >= anchor
    }
}

/// Whether the second program is no better than the first.
pub fn no_better(anchor: u64, quasar: u64) -> (loss: bool)
    ensures
        loss == is_loss(anchor, quasar),
{
    quasar > 0 && quasar >= anchor
}

/// The style class of a difference.
pub open spec fn delta_class(anchor: u64, quasar: u64) -> Seq<char> {
    if is_loss(anchor, quasar) {
        "loss"@
    } else {
        "win"@
    }
}

/// A line is a win exactly where the second program takes less than the first.
pub proof fn wins_are_smaller_counts(anchor: u64, quasar: u64)
    requires
        anchor > 0,
    ensures
        delta_class(anchor, quasar) == "win"@ <==> quasar < anchor,
        delta_class(anchor, quasar) == "loss"@ <==> quasar >= anchor,
{
    reveal_strlit("win");
    reveal_strlit("loss");
    assert("win"@.len() != "loss"@.len());
}

/// The last cell of a line: by how many percent the second program differs.
pub open spec fn delta_cell(anchor: u64, quasar: u64, percent: Seq<char>) -> Seq<char> {
    "<td class=\""@ + delta_class(anchor, quasar) + "\">"@ + percent + "%</td></tr>\n"@
}

/// Appends the last cell of a line.
fn append_delta_cell(s: &mut String, anchor: u64, quasar: u64, percent: &str)
    ensures
        final(s)@ == old(s)@ + delta_cell(anchor, quasar, percent@),
{
    let ghost before = s@;
    s.append("<td class=\"");
    if no_better(anchor, quasar) {
        s.append("loss");
    } else {
        s.append("win");
    }
    s.append("\">");
    s.append(percent);
    s.append("%</td></tr>\n");
    assert(s@ =~= before + delta_cell(anchor, quasar, percent@));
}

/// A size in bytes, and how it is written.
pub struct Size<'a> {
    pub bytes: u64,
    pub text: &'a str,
}

/// The line of the programs' sizes.
pub open spec fn size_row(anchor: Size<'_>, quasar: Size<'_>, percent: Seq<char>) -> Seq<char> {
    "<tr><td class=\"l\">binary_size</td><td>"@ + anchor.text@ + "</td><td>"@ + quasar.text@
        + "</td>"@ + delta_cell(anchor.bytes, quasar.bytes, percent)
}

/// The line of a case.
pub open spec fn case_row(row: Row, percent: Seq<char>) -> Seq<char> {
    "<tr><td class=\"l\">"@ + row.label@ + "</td><td>"@ + decimal_text(row.anchor_cu) + (
    match row.quasar_cu {
        Some(cu) => " CU</td><td>"@ + decimal_text(cu) + " CU</td>"@ + delta_cell(
            row.anchor_cu,
            cu,
            percent,
        ),
        None => NOT_MEASURED@,
    })
}

/// The rest of the line of a case that the second program did not finish.
pub const NOT_MEASURED: &'static str =
    " CU</td><td class=\"na\">N/A<sup>*</sup></td><td class=\"na\">—</td></tr>\n";

/// Appends the line of a case.
fn append_case_row(s: &mut String, row: &Row, percent: &str)
    ensures
        final(s)@ == old(s)@ + case_row(*row, percent@),
{
    let ghost before = s@;
    s.append("<tr><td class=\"l\">");
    s.append(row.label);
    s.append("</td><td>");
    append_decimal(s, row.anchor_cu);
    match row.quasar_cu {
        Some(cu) => {
            s.append(" CU</td><td>");
            append_decimal(s, cu);
            s.append(" CU</td>");
            append_delta_cell(s, row.anchor_cu, cu, percent);
        },
        None => {
            s.append(NOT_MEASURED);
        },
    }
    assert(s@ =~= before + case_row(*row, percent@));
}

/// The lines of the first `k` cases.
pub open spec fn case_rows(results: Results, percents: Seq<String>, k: int) -> Seq<char>
    decreases k,
{
    if k <= 0 {
        Seq::empty()
    } else {
        case_rows(results, percents, k - 1) + case_row(results.row(k - 1), percents[k - 1]@)
    }
}

/// The path of a case's flamegraph: that of the first with its label, from `i`
/// on.
pub open spec fn flame_path(flames: Seq<Flame>, label: Seq<char>, i: int) -> Option<Seq<char>>
    decreases flames.len() - i,
{
    if i >= flames.len() {
        None
    } else if flames[i].label@ == label {
        match flames[i].path {
            Some(path) => Some(path@),
            None => None,
        }
    } else {
        flame_path(flames, label, i + 1)
    }
}

/// Finds the path of a case's flamegraph.
fn find_flame_path<'a>(flames: &'a Vec<Flame>, label: &str) -> (r: Option<&'a String>)
    ensures
        match flame_path(flames@, label@, 0) {
            Some(path) => r is Some && r->0@ == path,
            None => r is None,
        },
{
    let mut i: usize = 0;
    while i < flames.len()
        invariant
            i <= flames@.len(),
            flame_path(flames@, label@, 0) == flame_path(flames@, label@, i as int),
        decreases flames@.len() - i,
    {
        if same_text(flames[i].label, label) {
            return match &flames[i].path {
                Some(path) => Some(path),
                None => None,
            };
        }
        i = i + 1;
    }
    None
}

/// A program's flamegraph of a case, with what the case took.
pub open spec fn flame_box(program: Seq<char>, cu: Option<u64>, path: Option<Seq<char>>) -> Seq<
    char,
> {
    "<div class=\"flame\">\n<div class=\"flame-label\">"@ + program + (match cu {
        Some(cu) => " · "@ + decimal_text(cu) + " CU"@,
        None => Seq::empty(),
    }) + "</div>\n"@ + (match path {
        Some(path) => "<a href=\""@ + path + "\" target=\"_blank\"><img src=\""@ + path
            + "\" alt=\""@ + path + "\"></a>\n"@,
        None => "<div class=\"flame-miss\">not generated</div>\n"@,
    }) + "</div>\n"@
}

/// Appends a program's flamegraph of a case.
fn append_flame_box(s: &mut String, program: &str, cu: Option<u64>, path: Option<&String>)
    ensures
        final(s)@ == old(s)@ + flame_box(
            program@,
            cu,
            match path {
                Some(path) => Some(path@),
                None => None,
            },
        ),
{
    let ghost before = s@;
    s.append("<div class=\"flame\">\n<div class=\"flame-label\">");
    s.append(program);
    match cu {
        Some(cu) => {
            s.append(" · ");
            append_decimal(s, cu);
            s.append(" CU");
        },
        None => {},
    }
    s.append("</div>\n");
    match path {
        Some(path) => {
            s.append("<a href=\"");
            s.append(path.as_str());
            s.append("\" target=\"_blank\"><img src=\"");
            s.append(path.as_str());
            s.append("\" alt=\"");
            s.append(path.as_str());
            s.append("\"></a>\n");
        },
        None => {
            s.append("<div class=\"flame-miss\">not generated</div>\n");
        },
    }
    s.append("</div>\n");
    assert(s@ =~= before + flame_box(
        program@,
        cu,
        match path {
            Some(path) => Some(path@),
            None => None,
        },
    ));
}

/// The flamegraphs of a case, side by side.
pub open spec fn flame_section(
    label: Seq<char>,
    results: Results,
    anchor_flames: Seq<Flame>,
    quasar_flames: Seq<Flame>,
) -> Seq<char> {
    "<h3>"@ + label + "</h3>\n<div class=\"flame-grid\">\n"@ + flame_box(
        "anchor v2"@,
        measured(results.anchor@, label, 0),
        flame_path(anchor_flames, label, 0),
    ) + flame_box(
        "quasar"@,
        measured(results.quasar@, label, 0),
        flame_path(quasar_flames, label, 0),
    ) + "</div>\n"@
}

/// Appends the flamegraphs of a case.
fn append_flame_section(
    s: &mut String,
    label: &str,
    results: &Results,
    anchor_flames: &Vec<Flame>,
    quasar_flames: &Vec<Flame>,
)
    ensures
        final(s)@ == old(s)@ + flame_section(
            label@,
            *results,
            anchor_flames@,
            quasar_flames@,
        ),
{
    let ghost before = s@;
    s.append("<h3>");
    s.append(label);
    s.append("</h3>\n<div class=\"flame-grid\">\n");
    append_flame_box(
        s,
        "anchor v2",
        find_measured(&results.anchor, label),
        find_flame_path(anchor_flames, label),
    );
    append_flame_box(
        s,
        "quasar",
        find_measured(&results.quasar, label),
        find_flame_path(quasar_flames, label),
    );
    s.append("</div>\n");
    assert(s@ =~= before + flame_section(label@, *results, anchor_flames@, quasar_flames@));
}

/// The flamegraphs of all cases.
pub open spec fn flame_sections(
    results: Results,
    anchor_flames: Seq<Flame>,
    quasar_flames: Seq<Flame>,
) -> Seq<char> {
    flame_section("create_wallet"@, results, anchor_flames, quasar_flames) + flame_section(
        "propose"@,
        results,
        anchor_flames,
        quasar_flames,
    ) + flame_section("approve"@, results, anchor_flames, quasar_flames) + flame_section(
        "cancel"@,
        results,
        anchor_flames,
        quasar_flames,
    ) + flame_section("execute"@, results, anchor_flames, quasar_flames) + flame_section(
        "cleanup_proposal"@,
        results,
        anchor_flames,
        quasar_flames,
    )
}

/// Appends the flamegraphs of all cases.
fn append_flame_sections(
    s: &mut String,
    results: &Results,
    anchor_flames: &Vec<Flame>,
    quasar_flames: &Vec<Flame>,
)
    ensures
        final(s)@ == old(s)@ + flame_sections(*results, anchor_flames@, quasar_flames@),
{
    let ghost before = s@;
    append_flame_section(s, "create_wallet", results, anchor_flames, quasar_flames);
    append_flame_section(s, "propose", results, anchor_flames, quasar_flames);
    append_flame_section(s, "approve", results, anchor_flames, quasar_flames);
    append_flame_section(s, "cancel", results, anchor_flames, quasar_flames);
    append_flame_section(s, "execute", results, anchor_flames, quasar_flames);
    append_flame_section(s, "cleanup_proposal", results, anchor_flames, quasar_flames);
    assert(s@ =~= before + flame_sections(*results, anchor_flames@, quasar_flames@));
}

/// The report: a table with a line for the programs' sizes and one for each
/// case, and the flamegraphs.
pub open spec fn html_report(
    results: Results,
    anchor_size: Size<'_>,
    quasar_size: Size<'_>,
    size_percent: Seq<char>,
    percents: Seq<String>,
    anchor_flames: Seq<Flame>,
    quasar_flames: Seq<Flame>,
) -> Seq<char> {
    HTML_HEAD@ + TABLE_HEAD@ + size_row(anchor_size, quasar_size, size_percent) + case_rows(
        results,
        percents,
        results.anchor@.len() as int,
    ) + TABLE_END@ + flame_sections(results, anchor_flames, quasar_flames) + HTML_END@
}

/// Writes the report. `size_percent` and `percents` say by how many percent
/// the second program differs from the first, each written with its sign and
/// one decimal; there is one for each case of the first program, which is
/// shown where the second program finished the case.
pub fn build_html_report(
    results: &Results,
    anchor_size: &Size<'_>,
    quasar_size: &Size<'_>,
    size_percent: &str,
    percents: &Vec<String>,
    anchor_flames: &Vec<Flame>,
    quasar_flames: &Vec<Flame>,
) -> (html: String)
    requires
        percents@.len() == results.anchor@.len(),
    ensures
        html@ == html_report(
            *results,
            *anchor_size,
            *quasar_size,
            size_percent@,
            percents@,
            anchor_flames@,
            quasar_flames@,
        ),
{
    let mut s = String::new();
    s.append(HTML_HEAD);
    s.append(TABLE_HEAD);
    s.append("<tr><td class=\"l\">binary_size</td><td>");
    s.append(anchor_size.text);
    s.append("</td><td>");
    s.append(quasar_size.text);
    s.append("</td>");
    append_delta_cell(&mut s, anchor_size.bytes, quasar_size.bytes, size_percent);
    let ghost before = s@;
    assert(before =~= HTML_HEAD@ + TABLE_HEAD@ + size_row(
        *anchor_size,
        *quasar_size,
        size_percent@,
    ));
    let rows = results.rows();
    let mut i: usize = 0;
    while i < rows.len()
        invariant
            i <= rows@.len(),
            rows@.len() == results.anchor@.len(),
            percents@.len() == results.anchor@.len(),
            forall|j: int| 0 <= j < rows@.len() ==> #[trigger] rows@[j] == results.row(j),
            s@ =~= before + case_rows(*results, percents@, i as int),
        decreases rows@.len() - i,
    {
        append_case_row(&mut s, &rows[i], percents[i].as_str());
        i = i + 1;
    }
    s.append(TABLE_END);
    append_flame_sections(&mut s, results, anchor_flames, quasar_flames);
    s.append(HTML_END);
    assert(s@ =~= html_report(
        *results,
        *anchor_size,
        *quasar_size,
        size_percent@,
        percents@,
        anchor_flames@,
        quasar_flames@,
    ));
    s
}

/// The top of the page and of the table.
pub const TABLE_HEAD: &'static str = r#"<h1>clear-msig: anchor v2 vs quasar</h1>
<div class="meta">cargo build-sbf · platform-tools v1.52 · same toolchain for both programs</div>

<h2>Results</h2>
<table>
<thead><tr><th class="l">Metric</th><th>Anchor v2</th><th>Quasar</th><th>Δ</th></tr></thead>
<tbody>
"#;

/// The end of the table and the top of the flamegraphs.
pub const TABLE_END: &'static str = r#"</tbody>
</table>
<p class="note"><sup>*</sup> Quasar cleanup_proposal fails under LiteSVM 0.10 with <code>UnbalancedInstruction</code>. Quasar's manual close() sequence is semantically valid on real Solana but trips LiteSVM's stricter intermediate-state validation.</p>

<h2>Flamegraphs</h2>
<p class="note">Click any SVG to open it in a new tab for interactive zoom. Widths are proportional to reachable CU — values beside each label are the top-level totals.</p>
"#;

/// The end of the page.
pub const HTML_END: &'static str = "\n</body>\n</html>\n";

/// The head of the page, with its style.
pub const HTML_HEAD: &'static str = r#"<!DOCTYPE html>
<html lang="en">
<head>
<meta charset="utf-8">
<title>clear-msig: anchor v2 vs quasar</title>
<style>
  :root {
    --fg: #111;
    --fg-muted: #555;
    --fg-faint: #888;
    --line: #eee;
    --line-strong: #ddd;
    --win: #080;
    --loss: #c00;
  }
  html { -webkit-text-size-adjust: 100%; }
  body {
    font: 13px/1.5 -apple-system, "Segoe UI", "Helvetica Neue", Arial, sans-serif;
    color: var(--fg);
    background: #fff;
    max-width: 900px;
    margin: 40px auto;
    padding: 0 32px 80px;
  }
  h1 { font: 600 20px/1.2 -apple-system, "Segoe UI", sans-serif; margin: 0 0 4px; }
  h2 { font: 600 14px/1 -apple-system, "Segoe UI", sans-serif; margin: 40px 0 12px; }
  h3 {
    font: 500 12px/1 "SF Mono", Menlo, Consolas, monospace;
    color: var(--fg-muted);
    margin: 32px 0 10px;
    letter-spacing: 0.02em;
  }
  .meta { color: var(--fg-faint); font-size: 12px; margin-bottom: 32px; }
  table { width: 100%; border-collapse: collapse; font: 12px/1.5 "SF Mono", Menlo, Consolas, monospace; }
  th {
    text-align: right;
    font-weight: 500;
    color: var(--fg-muted);
    padding: 6px 0 6px 16px;
    border-bottom: 1px solid var(--line-strong);
  }
  th.l { text-align: left; padding-left: 0; }
  td {
    text-align: right;
    padding: 6px 0 6px 16px;
    border-bottom: 1px solid var(--line);
  }
  td.l { text-align: left; padding-left: 0; color: var(--fg); }
  td.win, th.win { color: var(--win); }
  td.loss, th.loss { color: var(--loss); }
  td.na { color: var(--fg-faint); }
  sup { font-size: 9px; }
  code { font: 11px "SF Mono", Menlo, Consolas, monospace; color: var(--fg-muted); }
  .note { font-size: 11px; color: var(--fg-faint); margin: 12px 0 0; line-height: 1.5; }
  .flame-grid {
    display: grid;
    grid-template-columns: 1fr 1fr;
    gap: 16px;
    margin: 8px 0 24px;
  }
  .flame { display: flex; flex-direction: column; min-width: 0; }
  .flame-label {
    font: 11px "SF Mono", Menlo, Consolas, monospace;
    color: var(--fg-faint);
    margin-bottom: 6px;
  }
  .flame a { display: block; border: 1px solid var(--line); }
  .flame img {
    display: block;
    width: 100%;
    height: auto;
  }
  .flame-miss {
    font: 11px "SF Mono", Menlo, Consolas, monospace;
    color: var(--fg-faint);
    padding: 40px 0;
    text-align: center;
    border: 1px dashed var(--line-strong);
  }
</style>
</head>
<body>
"#;

} // verus!

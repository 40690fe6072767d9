//! Laws on the report of a benchmark run.
use crate::report::{
    case_row, case_rows, decimal_text, delta_class, flame_box, flame_path, flame_section,
    flame_sections, html_report, measured, size_row, Flame, Results, Row, Size, HTML_END,
    HTML_HEAD, TABLE_END, TABLE_HEAD,
};
use crate::text::decimal;
use vstd::prelude::*;

verus! {

/// What a case took is its first measurement: that at a position where its label
/// stands for the first time, and nothing where it stands nowhere.
pub proof fn the_first_measurement_counts(
    list: Seq<(&'static str, u64)>,
    label: Seq<char>,
    i: int,
)
    ensures
        0 <= i < list.len() && list[i].0@ == label && (forall|j: int|
            0 <= j < i ==> (#[trigger] list[j]).0@ != label) ==> measured(list, label, 0) == Some(
            list[i].1,
        ),
        (forall|j: int| 0 <= j < list.len() ==> (#[trigger] list[j]).0@ != label) ==> measured(
            list,
            label,
            0,
        ) is None,
{
    if 0 <= i < list.len() && list[i].0@ == label && (forall|j: int|
        0 <= j < i ==> (#[trigger] list[j]).0@ != label) {
        lemma_measured(list, label, 0, i);
    }
    if forall|j: int| 0 <= j < list.len() ==> (#[trigger] list[j]).0@ != label {
        lemma_not_measured(list, label, 0);
    }
}

proof fn lemma_measured(list: Seq<(&'static str, u64)>, label: Seq<char>, k: int, i: int)
    requires
        0 <= k <= i < list.len(),
        list[i].0@ == label,
        forall|j: int| k <= j < i ==> (#[trigger] list[j]).0@ != label,
    ensures
        measured(list, label, k) == Some(list[i].1),
    decreases i - k,
{
    if k < i {
        assert(list[k].0@ != label);
        lemma_measured(list, label, k + 1, i);
    }
}

proof fn lemma_not_measured(list: Seq<(&'static str, u64)>, label: Seq<char>, k: int)
    requires
        0 <= k,
        forall|j: int| k <= j < list.len() ==> (#[trigger] list[j]).0@ != label,
    ensures
        measured(list, label, k) is None,
    decreases list.len() - k,
{
    if k < list.len() {
        assert(list[k].0@ != label);
        lemma_not_measured(list, label, k + 1);
    }
}

/// The flamegraph of a case is the first with its label.
pub proof fn the_first_flamegraph_counts(flames: Seq<Flame>, label: Seq<char>, i: int)
    ensures
        0 <= i < flames.len() && flames[i].label@ == label && (forall|j: int|
            0 <= j < i ==> (#[trigger] flames[j]).label@ != label) ==> match flames[i].path {
            Some(path) => flame_path(flames, label, 0) == Some(path@),
            None => flame_path(flames, label, 0) is None,
        },
        (forall|j: int| 0 <= j < flames.len() ==> (#[trigger] flames[j]).label@ != label)
            ==> flame_path(flames, label, 0) is None,
{
    if 0 <= i < flames.len() && flames[i].label@ == label && (forall|j: int|
        0 <= j < i ==> (#[trigger] flames[j]).label@ != label) {
        lemma_flame(flames, label, 0, i);
    }
    if forall|j: int| 0 <= j < flames.len() ==> (#[trigger] flames[j]).label@ != label {
        lemma_no_flame(flames, label, 0);
    }
}

proof fn lemma_flame(flames: Seq<Flame>, label: Seq<char>, k: int, i: int)
    requires
        0 <= k <= i < flames.len(),
        flames[i].label@ == label,
        forall|j: int| k <= j < i ==> (#[trigger] flames[j]).label@ != label,
    ensures
        flame_path(flames, label, k) == match flames[i].path {
            Some(path) => Some(path@),
            None => None,
        },
    decreases i - k,
{
    if k < i {
        assert(flames[k].label@ != label);
        lemma_flame(flames, label, k + 1, i);
    }
}

proof fn lemma_no_flame(flames: Seq<Flame>, label: Seq<char>, k: int)
    requires
        0 <= k,
        forall|j: int| k <= j < flames.len() ==> (#[trigger] flames[j]).label@ != label,
    ensures
        flame_path(flames, label, k) is None,
    decreases flames.len() - k,
{
    if k < flames.len() {
        assert(flames[k].label@ != label);
        lemma_no_flame(flames, label, k + 1);
    }
}

/// A line shows the case and the counts of both programs for it: those of the
/// first program's case with that number, and of the second's first case with
/// the same label.
pub proof fn lines_compare_the_same_case(results: Results, i: int)
    ensures
        results.row(i).label == results.anchor@[i].0,
        results.row(i).anchor_cu == results.anchor@[i].1,
        results.row(i).quasar_cu == measured(results.quasar@, results.anchor@[i].0@, 0),
{
}

/// Numbers are written in decimal.
pub proof fn counts_are_written_in_decimal(n: u64, i: int)
    ensures
        decimal_text(n).len() == decimal(n as nat).len(),
        0 <= i < decimal(n as nat).len() ==> decimal_text(n)[i] == decimal(n as nat)[i] as char,
{
}

/// The line of a case: its label and the first program's count, and then the
/// second's count with the difference, or that there is none.
pub proof fn lines_read_as_follows(row: Row, percent: Seq<char>)
    ensures
        ({
            let front = "<tr><td class=\"l\">"@ + row.label@ + "</td><td>"@ + decimal_text(
                row.anchor_cu,
            ) + " CU</td><td"@;
            &&& row.quasar_cu is None ==> case_row(row, percent) == front
                + " class=\"na\">N/A<sup>*</sup></td><td class=\"na\">—</td></tr>\n"@
            &&& row.quasar_cu is Some ==> case_row(row, percent) == front + ">"@ + decimal_text(
                row.quasar_cu->0,
            ) + " CU</td><td class=\""@ + delta_class(row.anchor_cu, row.quasar_cu->0)
                + "\">"@ + percent + "%</td></tr>\n"@
        }),
{
    reveal_strlit(" CU</td><td");
    reveal_strlit(" CU</td><td>");
    reveal_strlit(">");
    reveal_strlit(" CU</td>");
    reveal_strlit("<td class=\"");
    reveal_strlit(" CU</td><td class=\"");
    reveal_strlit(" class=\"na\">N/A<sup>*</sup></td><td class=\"na\">—</td></tr>\n");
    reveal_strlit(
        " CU</td><td class=\"na\">N/A<sup>*</sup></td><td class=\"na\">—</td></tr>\n",
    );
    let front = "<tr><td class=\"l\">"@ + row.label@ + "</td><td>"@ + decimal_text(row.anchor_cu);
    assert(" CU</td><td"@ + ">"@ =~= " CU</td><td>"@);
    assert(" CU</td>"@ + "<td class=\""@ =~= " CU</td><td class=\""@);
    assert(" CU</td><td"@ + " class=\"na\">N/A<sup>*</sup></td><td class=\"na\">—</td></tr>\n"@
        =~= " CU</td><td class=\"na\">N/A<sup>*</sup></td><td class=\"na\">—</td></tr>\n"@);
    match row.quasar_cu {
        None => {
            assert(case_row(row, percent) =~= front + (" CU</td><td"@
                + " class=\"na\">N/A<sup>*</sup></td><td class=\"na\">—</td></tr>\n"@));
            assert(case_row(row, percent) =~= front + " CU</td><td"@
                + " class=\"na\">N/A<sup>*</sup></td><td class=\"na\">—</td></tr>\n"@);
        },
        Some(cu) => {
            let class = delta_class(row.anchor_cu, cu);
            assert(case_row(row, percent) =~= front + (" CU</td><td"@ + ">"@) + decimal_text(cu)
                + (" CU</td>"@ + "<td class=\""@) + class + "\">"@ + percent + "%</td></tr>\n"@);
            assert(case_row(row, percent) =~= front + " CU</td><td"@ + ">"@ + decimal_text(cu)
                + " CU</td><td class=\""@ + class + "\">"@ + percent + "%</td></tr>\n"@);
        },
    }
}

/// The lines of the cases stand one behind the other, each once and in the order
/// of the first program's cases, with the difference of the same number.
pub proof fn there_is_one_line_for_each_case(results: Results, percents: Seq<String>, k: int)
    requires
        0 <= k,
    ensures
        case_rows(results, percents, 0) == Seq::<char>::empty(),
        case_rows(results, percents, k + 1) == case_rows(results, percents, k) + case_row(
            results.row(k),
            percents[k]@,
        ),
{
}

/// The page has its head, the table with a line of the sizes and the lines of
/// all cases, the flamegraphs of the six cases, and its end.
pub proof fn the_page_has_its_parts(
    results: Results,
    anchor_size: Size<'_>,
    quasar_size: Size<'_>,
    size_percent: Seq<char>,
    percents: Seq<String>,
    anchor_flames: Seq<Flame>,
    quasar_flames: Seq<Flame>,
)
    ensures
        html_report(
            results,
            anchor_size,
            quasar_size,
            size_percent,
            percents,
            anchor_flames,
            quasar_flames,
        ) == HTML_HEAD@ + TABLE_HEAD@ + size_row(anchor_size, quasar_size, size_percent)
            + case_rows(results, percents, results.anchor@.len() as int) + TABLE_END@
            + flame_sections(results, anchor_flames, quasar_flames) + HTML_END@,
        size_row(anchor_size, quasar_size, size_percent)
            == "<tr><td class=\"l\">binary_size</td><td>"@ + anchor_size.text@ + "</td><td>"@
            + quasar_size.text@ + "</td>"@ + ("<td class=\""@ + delta_class(
            anchor_size.bytes,
            quasar_size.bytes,
        ) + "\">"@ + size_percent + "%</td></tr>\n"@),
        flame_sections(results, anchor_flames, quasar_flames) == flame_section(
            "create_wallet"@,
            results,
            anchor_flames,
            quasar_flames,
        ) + flame_section("propose"@, results, anchor_flames, quasar_flames) + flame_section(
            "approve"@,
            results,
            anchor_flames,
            quasar_flames,
        ) + flame_section("cancel"@, results, anchor_flames, quasar_flames) + flame_section(
            "execute"@,
            results,
            anchor_flames,
            quasar_flames,
        ) + flame_section("cleanup_proposal"@, results, anchor_flames, quasar_flames),
{
}

/// The flamegraphs of a case are those of the first and of the second program,
/// each with what its program took and with its own picture.
pub proof fn flamegraphs_stand_side_by_side(
    label: Seq<char>,
    results: Results,
    anchor_flames: Seq<Flame>,
    quasar_flames: Seq<Flame>,
    program: Seq<char>,
    cu: u64,
    path: Seq<char>,
)
    ensures
        flame_section(label, results, anchor_flames, quasar_flames) == "<h3>"@ + label
            + "</h3>\n<div class=\"flame-grid\">\n"@ + flame_box(
            "anchor v2"@,
            measured(results.anchor@, label, 0),
            flame_path(anchor_flames, label, 0),
        ) + flame_box(
            "quasar"@,
            measured(results.quasar@, label, 0),
            flame_path(quasar_flames, label, 0),
        ) + "</div>\n"@,
        flame_box(program, Some(cu), Some(path))
            == "<div class=\"flame\">\n<div class=\"flame-label\">"@ + program + (" · "@
            + decimal_text(cu) + " CU"@) + "</div>\n"@ + ("<a href=\""@ + path
            + "\" target=\"_blank\"><img src=\""@ + path + "\" alt=\""@ + path + "\"></a>\n"@)
            + "</div>\n"@,
        flame_box(program, None, None)
            == "<div class=\"flame\">\n<div class=\"flame-label\">"@ + program
            + "</div>\n"@ + "<div class=\"flame-miss\">not generated</div>\n"@ + "</div>\n"@,
{
    assert(flame_box(program, None, None)
        =~= "<div class=\"flame\">\n<div class=\"flame-label\">"@ + program + "</div>\n"@
        + "<div class=\"flame-miss\">not generated</div>\n"@ + "</div>\n"@);
}

} // verus!

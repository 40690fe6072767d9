//! The report of a benchmark run.
use clear_msig::report::{
    build_html_report, no_better, Flame, Results, Size, HTML_END, HTML_HEAD, TABLE_END, TABLE_HEAD,
};

#[test]
fn rows_follow_the_first_program() {
    let mut results = Results::new();
    assert!(results.rows().is_empty());
    results.anchor.push(("create_wallet", 100));
    results.anchor.push(("propose", 200));
    results.quasar.push(("propose", 150));
    results.quasar.push(("propose", 151));
    results.quasar.push(("cancel", 1));
    let rows = results.rows();
    assert_eq!(rows.len(), 2);
    assert_eq!((rows[0].label, rows[0].anchor_cu, rows[0].quasar_cu), ("create_wallet", 100, None));
    assert_eq!((rows[1].label, rows[1].anchor_cu, rows[1].quasar_cu), ("propose", 200, Some(150)));
}

#[test]
fn a_small_report() {
    let mut results = Results::new();
    results.anchor.push(("create_wallet", 100));
    results.anchor.push(("propose", 200));
    results.quasar.push(("propose", 150));
    let percents = vec![String::new(), "-25.0".to_string()];
    let anchor_flames = vec![
        Flame { label: "propose", path: Some("flamegraphs/a.svg".to_string()) },
        Flame { label: "approve", path: None },
    ];
    let html = build_html_report(
        &results,
        &Size { bytes: 10_240, text: "10.0 KB" },
        &Size { bytes: 10_394, text: "10.2 KB" },
        "+1.5",
        &percents,
        &anchor_flames,
        &vec![],
    );
    let mut expected = String::new();
    expected.push_str(HTML_HEAD);
    expected.push_str(TABLE_HEAD);
    expected.push_str("<tr><td class=\"l\">binary_size</td><td>10.0 KB</td><td>10.2 KB</td><td class=\"loss\">+1.5%</td></tr>\n");
    expected.push_str("<tr><td class=\"l\">create_wallet</td><td>100 CU</td><td class=\"na\">N/A<sup>*</sup></td><td class=\"na\">—</td></tr>\n");
    expected.push_str("<tr><td class=\"l\">propose</td><td>200 CU</td><td>150 CU</td><td class=\"win\">-25.0%</td></tr>\n");
    expected.push_str(TABLE_END);
    for label in ["create_wallet", "propose", "approve", "cancel", "execute", "cleanup_proposal"] {
        let anchor_cu = match label {
            "create_wallet" => " · 100 CU",
            "propose" => " · 200 CU",
            _ => "",
        };
        let quasar_cu = if label == "propose" { " · 150 CU" } else { "" };
        let image = if label == "propose" {
            "<a href=\"flamegraphs/a.svg\" target=\"_blank\"><img src=\"flamegraphs/a.svg\" alt=\"flamegraphs/a.svg\"></a>\n"
        } else {
            "<div class=\"flame-miss\">not generated</div>\n"
        };
        expected.push_str(&format!(
            "<h3>{label}</h3>\n<div class=\"flame-grid\">\n<div class=\"flame\">\n\
<div class=\"flame-label\">anchor v2{anchor_cu}</div>\n{image}</div>\n\
<div class=\"flame\">\n<div class=\"flame-label\">quasar{quasar_cu}</div>\n\
<div class=\"flame-miss\">not generated</div>\n</div>\n</div>\n"
        ));
    }
    expected.push_str(HTML_END);
    assert_eq!(html, expected);
    assert!(html.starts_with("<!DOCTYPE html>\n"));
    assert!(html.ends_with("\n</body>\n</html>\n"));
}

#[test]
fn a_win_is_a_smaller_count() {
    assert!(!no_better(200, 199));
    assert!(no_better(200, 200));
    assert!(no_better(200, 201));
    assert!(no_better(0, 1));
    assert!(!no_better(0, 0));
    let mut results = Results::new();
    let cases = [("propose", 200, 199), ("approve", 200, 200), ("cancel", 200, 201)];
    for (label, anchor, quasar) in cases {
        results.anchor.push((label, anchor));
        results.quasar.push((label, quasar));
    }
    let percents = vec!["-0.5".to_string(), "+0.0".to_string(), "+0.5".to_string()];
    let html = build_html_report(
        &results,
        &Size { bytes: 2, text: "2 B" },
        &Size { bytes: 1, text: "1 B" },
        "-50.0",
        &percents,
        &vec![],
        &vec![],
    );
    assert!(html.contains("<td>2 B</td><td>1 B</td><td class=\"win\">-50.0%</td></tr>"));
    assert!(html.contains("<td>199 CU</td><td class=\"win\">-0.5%</td></tr>"));
    assert!(html.contains("<td>200 CU</td><td class=\"loss\">+0.0%</td></tr>"));
    assert!(html.contains("<td>201 CU</td><td class=\"loss\">+0.5%</td></tr>"));
}

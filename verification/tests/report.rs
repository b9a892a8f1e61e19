use acadrust_dxf_bench::report::{render_report, render_section, row_line, ReportTable, TableRow};
use acadrust_dxf_bench::text::table_row;

fn row(label: &str, cells: &[&str]) -> TableRow {
    TableRow {
        label: label.to_string(),
        cells: cells.iter().map(|c| c.to_string()).collect(),
    }
}

#[test]
fn table_rows() {
    assert_eq!(table_row(&vec![]), "|  |");
    assert_eq!(table_row(&vec!["a".to_string()]), "| a |");
    assert_eq!(
        table_row(&vec!["a".to_string(), "1.00".to_string(), "n/a".to_string()]),
        "| a | 1.00 | n/a |"
    );
}

#[test]
fn row_lines() {
    assert_eq!(
        row_line(&row("lines_only", &["1.00", "2.00", "n/a", "n/a", "dxf-rs"])),
        "| `lines_only` | 1.00 | 2.00 | n/a | n/a | dxf-rs |\n"
    );
}

#[test]
fn empty_section_has_placeholder() {
    let table = ReportTable { name: "Write".to_string(), rows: vec![] };
    assert_eq!(
        render_section(&table),
        "## Write\n\n| Label | dxf-rs (ms) | acadrust (ms) | ACadSharp (ms) | ezdxf (ms) | Fastest |\n|---|---:|---:|---:|---:|---|\n| _No measurements_ | | | | | |\n\n"
    );
}

#[test]
fn full_report() {
    let tables = vec![
        ReportTable {
            name: "Parse".to_string(),
            rows: vec![
                row("a.dxf (DXF)", &["1.50", "0.75", "n/a", "2.00", "acadrust"]),
                row("b.dwg (DWG)", &["n/a", "3.00", "n/a", "n/a", "acadrust"]),
            ],
        },
        ReportTable { name: "Roundtrip".to_string(), rows: vec![] },
    ];
    let expected = [
        "# acadrust-dxf-bench report\n\n",
        "- Mode: `custom files`\n- Iterations: `5`\n- Generated at (Unix): `1700000000`\n\n",
        "## Parse\n\n",
        "| Label | dxf-rs (ms) | acadrust (ms) | ACadSharp (ms) | ezdxf (ms) | Fastest |\n",
        "|---|---:|---:|---:|---:|---|\n",
        "| `a.dxf (DXF)` | 1.50 | 0.75 | n/a | 2.00 | acadrust |\n",
        "| `b.dwg (DWG)` | n/a | 3.00 | n/a | n/a | acadrust |\n",
        "\n",
        "## Roundtrip\n\n",
        "| Label | dxf-rs (ms) | acadrust (ms) | ACadSharp (ms) | ezdxf (ms) | Fastest |\n",
        "|---|---:|---:|---:|---:|---|\n",
        "| _No measurements_ | | | | | |\n",
        "\n",
    ]
    .concat();
    assert_eq!(render_report("custom files", 5, 1_700_000_000, &tables), expected);
}

#[test]
fn report_without_sections() {
    assert_eq!(
        render_report("large_10k", 0, 0, &vec![]),
        "# acadrust-dxf-bench report\n\n- Mode: `large_10k`\n- Iterations: `0`\n- Generated at (Unix): `0`\n\n"
    );
}

//! The Markdown benchmark report.
//!
//! Timings are formatted by the caller; this module lays out the document
//! around the formatted cells.
use vstd::prelude::*;
use vstd::string::StringExecFns;
use crate::text::{decimal, spec_decimal, spec_table_row, table_row};

verus! {

/// A row of a report table: the input label and the formatted cells after it
/// (one per library, then the fastest library).
pub struct TableRow {
    pub label: String,
    pub cells: Vec<String>,
}

/// A section of the report: its heading and its rows.
pub struct ReportTable {
    pub name: String,
    pub rows: Vec<TableRow>,
}

/// The line of a row: the label in backticks, then the cells.
pub open spec fn spec_row_line(row: TableRow) -> Seq<char> {
    spec_table_row(seq!["`"@ + row.label@ + "`"@] + row.cells.deep_view()) + "\n"@
}

/// The lines of `rows`, in order.
pub open spec fn spec_rows(rows: Seq<TableRow>) -> Seq<char>
    decreases rows.len(),
{
    if rows.len() == 0 {
        Seq::empty()
    } else {
        spec_rows(rows.drop_last()) + spec_row_line(rows.last())
    }
}

/// A section: heading, table head, one line per row (or a placeholder line
/// when there is none), and a blank line.
pub open spec fn spec_section(table: ReportTable) -> Seq<char> {
    "## "@ + table.name@ + "\n\n"@
        + "| Label | dxf-rs (ms) | acadrust (ms) | ACadSharp (ms) | ezdxf (ms) | Fastest |\n"@
        + "|---|---:|---:|---:|---:|---|\n"@ + spec_rows(table.rows@) + (if table.rows.len() == 0 {
        "| _No measurements_ | | | | | |\n"@
    } else {
        Seq::empty()
    }) + "\n"@
}

/// The sections of `tables`, in order.
pub open spec fn spec_sections(tables: Seq<ReportTable>) -> Seq<char>
    decreases tables.len(),
{
    if tables.len() == 0 {
        Seq::empty()
    } else {
        spec_sections(tables.drop_last()) + spec_section(tables.last())
    }
}

/// Title and run parameters at the top of the report.
pub open spec fn spec_report_head(mode: Seq<char>, iterations: nat, generated_at: nat) -> Seq<
    char,
> {
    "# acadrust-dxf-bench report\n\n"@ + "- Mode: `"@ + mode + "`\n- Iterations: `"@
        + spec_decimal(iterations) + "`\n- Generated at (Unix): `"@ + spec_decimal(generated_at)
        + "`\n\n"@
}

/// The whole report.
pub open spec fn spec_report(
    mode: Seq<char>,
    iterations: nat,
    generated_at: nat,
    tables: Seq<ReportTable>,
) -> Seq<char> {
    spec_report_head(mode, iterations, generated_at) + spec_sections(tables)
}

/// A table with rows renders no placeholder: adding a row to it inserts
/// exactly that row's line before the closing blank line, and nothing else.
pub proof fn lemma_section_appends_row(table: ReportTable, longer: ReportTable, row: TableRow)
    requires
        table.rows.len() > 0,
        longer.name@ == table.name@,
        longer.rows@ == table.rows@.push(row),
    ensures
        spec_section(table).len() > 0,
        spec_section(longer) == spec_section(table).take(spec_section(table).len() - 1)
            + spec_row_line(row) + "\n"@,
{
    reveal_strlit("\n");
    assert(longer.rows@.drop_last() =~= table.rows@);
    assert(spec_rows(longer.rows@) == spec_rows(table.rows@) + spec_row_line(row));
    let head = "## "@ + table.name@ + "\n\n"@
        + "| Label | dxf-rs (ms) | acadrust (ms) | ACadSharp (ms) | ezdxf (ms) | Fastest |\n"@
        + "|---|---:|---:|---:|---:|---|\n"@;
    assert(spec_section(table) =~= head + spec_rows(table.rows@) + "\n"@);
    assert(spec_section(table).take(spec_section(table).len() - 1) =~= head + spec_rows(
        table.rows@,
    ));
    assert(spec_section(longer) =~= head + spec_rows(table.rows@) + spec_row_line(row) + "\n"@);
}

/// A table of one row renders its heading, the table head, that row's line
/// and a blank line; a table without rows renders the placeholder line in
/// place of rows.
pub proof fn lemma_section_bounds(table: ReportTable)
    ensures
        table.rows.len() == 1 ==> spec_section(table) == "## "@ + table.name@ + "\n\n"@
            + "| Label | dxf-rs (ms) | acadrust (ms) | ACadSharp (ms) | ezdxf (ms) | Fastest |\n"@
            + "|---|---:|---:|---:|---:|---|\n"@ + spec_row_line(table.rows[0]) + "\n"@,
        table.rows.len() == 0 ==> spec_section(table) == "## "@ + table.name@ + "\n\n"@
            + "| Label | dxf-rs (ms) | acadrust (ms) | ACadSharp (ms) | ezdxf (ms) | Fastest |\n"@
            + "|---|---:|---:|---:|---:|---|\n"@ + "| _No measurements_ | | | | | |\n"@ + "\n"@,
{
    if table.rows.len() == 1 {
        assert(table.rows@.drop_last() =~= Seq::<TableRow>::empty());
        assert(spec_rows(table.rows@.drop_last()) =~= Seq::<char>::empty());
        assert(table.rows@.last() == table.rows[0]);
        assert(spec_rows(table.rows@) =~= spec_row_line(table.rows[0]));
    }
    if table.rows.len() == 0 {
        assert(spec_rows(table.rows@) =~= Seq::<char>::empty());
    }
}

/// The line of one row.
pub fn row_line(row: &TableRow) -> (line: String)
    ensures
        line@ == spec_row_line(*row),
{
    let mut first = String::from_str("`");
    first.append(row.label.as_str());
    first.append("`");
    let mut cells: Vec<String> = Vec::new();
    cells.push(first);
    let ghost head = seq!["`"@ + row.label@ + "`"@];
    let mut j: usize = 0;
    while j < row.cells.len()
        invariant
            0 <= j <= row.cells.len(),
            cells.len() == j + 1,
            cells[0]@ == head[0],
            forall|k: int| 0 <= k < j ==> cells[k + 1]@ == (#[trigger] row.cells[k])@,
        decreases row.cells.len() - j,
    {
        let c = row.cells[j].clone();
        cells.push(c);
        j = j + 1;
    }
    assert(cells.deep_view() =~= head + row.cells.deep_view()) by {
        assert forall|k: int| 0 <= k < cells.len() implies cells.deep_view()[k] == (head
            + row.cells.deep_view())[k] by {
            if k > 0 {
                assert(row.cells[k - 1]@ == row.cells.deep_view()[k - 1]);
            }
        }
    }
    let mut line = table_row(&cells);
    line.append("\n");
    line
}

/// Renders one section of the report.
pub fn render_section(table: &ReportTable) -> (text: String)
    ensures
        text@ == spec_section(*table),
{
    let mut text = String::from_str("## ");
    text.append(table.name.as_str());
    text.append("\n\n");
    text.append("| Label | dxf-rs (ms) | acadrust (ms) | ACadSharp (ms) | ezdxf (ms) | Fastest |\n");
    text.append("|---|---:|---:|---:|---:|---|\n");
    let ghost prefix = text@;
    let mut j: usize = 0;
    while j < table.rows.len()
        invariant
            0 <= j <= table.rows.len(),
            text@ == prefix + spec_rows(table.rows@.take(j as int)),
        decreases table.rows.len() - j,
    {
        let line = row_line(&table.rows[j]);
        text.append(line.as_str());
        assert(table.rows@.take(j + 1).drop_last() =~= table.rows@.take(j as int));
        j = j + 1;
    }
    assert(table.rows@.take(table.rows.len() as int) =~= table.rows@);
    if table.rows.len() == 0 {
        text.append("| _No measurements_ | | | | | |\n");
    }
    text.append("\n");
    text
}

/// Renders the Markdown report of a run: title, mode, iteration count and
/// generation time, then one section per table.
pub fn render_report(mode: &str, iterations: usize, generated_at: u64, tables: &Vec<
    ReportTable,
>) -> (text: String)
    ensures
        text@ == spec_report(mode@, iterations as nat, generated_at as nat, tables@),
{
    let mut text = String::from_str("# acadrust-dxf-bench report\n\n");
    text.append("- Mode: `");
    text.append(mode);
    text.append("`\n- Iterations: `");
    let it = decimal(iterations as u64);
    text.append(it.as_str());
    text.append("`\n- Generated at (Unix): `");
    let at = decimal(generated_at);
    text.append(at.as_str());
    text.append("`\n\n");
    let ghost head = text@;
    assert(head == spec_report_head(mode@, iterations as nat, generated_at as nat));
    let mut i: usize = 0;
    while i < tables.len()
        invariant
            0 <= i <= tables.len(),
            head == spec_report_head(mode@, iterations as nat, generated_at as nat),
            text@ == head + spec_sections(tables@.take(i as int)),
        decreases tables.len() - i,
    {
        let section = render_section(&tables[i]);
        text.append(section.as_str());
        assert(tables@.take(i + 1).drop_last() =~= tables@.take(i as int));
        i = i + 1;
    }
    assert(tables@.take(tables.len() as int) =~= tables@);
    text
}

} // verus!

//! Rendering what a statement gives: rows, a plan, or an error; for machines as JSON, for people
//! as a table with aligned columns.
//!
//! The JSON is stable: rows are `{"rows":[ {column: value, …} ]}`, an error is
//! `{"error":{"code","kind","message","path"?,"detail"?}}`. Encoding rows, plans and nested values
//! is serde's work; what it gave comes along with the values, or the lack of it where encoding
//! failed.
use crate::json::hex_digit;
use crate::text::{
    chars_of, decimal, int_text, join, joined, lemma_replaced_concat, lemma_replaced_take, nat_text,
    int_in, law_numbers_read_back, nat_in, opt_view, replaced, signed_decimal, trim_end, trimmed_end,
    views,
};
use crate::types::schema::TypeView;
use crate::types::value::{Value, ValueView};
use vstd::prelude::*;

verus! {

/// One cell of a result: a value, and the text that formatting a floating-point number or
/// encoding a nested value gave for it.
#[derive(Debug, PartialEq)]
pub struct Cell {
    /// The value.
    pub value: Value,
    /// The outside text of a float or a nested value; `None` where encoding failed. Not looked at
    /// for other values.
    pub encoded: Option<String>,
}

/// The rows that a read gave.
#[derive(Debug, PartialEq)]
pub struct RowSet {
    /// The names of the columns.
    pub columns: Vec<String>,
    /// The cells, row by row.
    pub rows: Vec<Vec<Cell>>,
    /// The rows as one JSON document; `None` where encoding failed.
    pub encoded: Option<String>,
}

/// A plan of effects, previewed or committed.
#[derive(Debug, PartialEq)]
pub struct PlanPreview {
    /// The preview for people.
    pub preview: String,
    /// Whether the plan was committed.
    pub committed: bool,
    /// The plan as one JSON document; `None` where encoding failed.
    pub encoded: Option<String>,
}

/// An error of an execution.
#[derive(Debug, PartialEq)]
pub struct ExecError {
    /// The stable code.
    pub code: String,
    /// The stable kind.
    pub kind: String,
    /// The message for people.
    pub message: String,
    /// The path that the error is about.
    pub path: Option<String>,
    /// What else there is to say.
    pub detail: Option<String>,
}

// ---- JSON ------------------------------------------------------------------------------------

/// A character as it stands in a JSON string: the quote, the backslash and the control characters
/// are escaped, as a string of JSON must not hold them bare.
pub open spec fn escaped_char(c: char) -> Seq<char> {
    if c == '"' {
        seq!['\\', '"']
    } else if c == '\\' {
        seq!['\\', '\\']
    } else if c == '\n' {
        seq!['\\', 'n']
    } else if c == '\r' {
        seq!['\\', 'r']
    } else if c == '\t' {
        seq!['\\', 't']
    } else if (c as u32) < 32 {
        seq![
            '\\',
            'u',
            '0',
            '0',
            hex_digit((c as u32 / 16) as int),
            hex_digit((c as u32 % 16) as int),
        ]
    } else {
        seq![c]
    }
}

/// A text as it stands in a JSON string.
pub open spec fn escaped(s: Seq<char>) -> Seq<char> {
    replaced(s, |c: char| escaped_char(c))
}

/// A member `"name":"text"` behind a comma, or nothing where the text is absent.
pub open spec fn optional_member(name: Seq<char>, text: Option<Seq<char>>) -> Seq<char> {
    match text {
        Some(t) => ",\""@ + name + "\":\""@ + escaped(t) + "\""@,
        None => Seq::empty(),
    }
}

/// The JSON document for an error.
pub open spec fn envelope(err: ExecError) -> Seq<char> {
    "{\"error\":{"@ + "\"code\":\""@ + escaped(err.code@) + "\",\"kind\":\""@ + escaped(err.kind@)
        + "\",\"message\":\""@ + escaped(err.message@) + "\""@ + optional_member(
        "path"@,
        opt_view(err.path),
    ) + optional_member("detail"@, opt_view(err.detail)) + "}}"@
}

/// The hexadecimal digit of a number under sixteen.
fn hex(n: u32) -> (r: char)
    requires
        n < 16,
    ensures
        r == hex_digit(n as int),
{
    let code: u8 = if n < 10 {
        48 + n as u8
    } else {
        87 + n as u8
    };
    code as char
}

/// A text as it stands in a JSON string.
pub fn escape(s: &str) -> (r: String)
    ensures
        r@ == escaped(s@),
{
    let v: Vec<char> = chars_of(s);
    let ghost f = |c: char| escaped_char(c);
    let mut r: String = String::new();
    let mut i: usize = 0;
    while i < v.len()
        invariant
            i <= v.len(),
            f == |c: char| escaped_char(c),
            r@ == replaced(v@.take(i as int), f),
        decreases v.len() - i,
    {
        proof {
            lemma_replaced_take(v@, f, i as int);
        }
        let c: char = v[i];
        if c == '"' {
            r.push('\\');
            r.push('"');
        } else if c == '\\' {
            r.push('\\');
            r.push('\\');
        } else if c == '\n' {
            r.push('\\');
            r.push('n');
        } else if c == '\r' {
            r.push('\\');
            r.push('r');
        } else if c == '\t' {
            r.push('\\');
            r.push('t');
        } else if (c as u32) < 32 {
            r.push('\\');
            r.push('u');
            r.push('0');
            r.push('0');
            r.push(hex(c as u32 / 16));
            r.push(hex(c as u32 % 16));
        } else {
            r.push(c);
        }
        i = i + 1;
        assert(r@ =~= replaced(v@.take(i as int), f));
    }
    assert(v@.take(i as int) =~= s@);
    r
}

fn append_member(r: &mut String, name: &str, text: &Option<String>)
    ensures
        final(r)@ == old(r)@ + optional_member(name@, opt_view(*text)),
{
    let ghost had = r@;
    match text {
        Some(t) => {
            r.append(",\"");
            r.append(name);
            r.append("\":\"");
            r.append(escape(t.as_str()).as_str());
            r.append("\"");
        },
        None => {},
    }
    assert(r@ =~= had + optional_member(name@, opt_view(*text)));
}

/// The JSON document for an error. Its members always stand in the same order.
pub fn error_envelope(err: &ExecError) -> (r: String)
    ensures
        r@ == envelope(*err),
{
    let mut r: String = "{\"error\":{".to_owned();
    r.append("\"code\":\"");
    r.append(escape(err.code.as_str()).as_str());
    r.append("\",\"kind\":\"");
    r.append(escape(err.kind.as_str()).as_str());
    r.append("\",\"message\":\"");
    r.append(escape(err.message.as_str()).as_str());
    r.append("\"");
    append_member(&mut r, "path", &err.path);
    append_member(&mut r, "detail", &err.detail);
    r.append("}}");
    r
}

// ---- tables ----------------------------------------------------------------------------------

/// What a table shows for a cell.
pub open spec fn displayed(cell: Cell) -> Seq<char> {
    match cell.value@ {
        ValueView::Null => "NULL"@,
        ValueView::Bool(b) => if b {
            "true"@
        } else {
            "false"@
        },
        ValueView::Int(n) => int_text(n),
        ValueView::Text(s) => s,
        ValueView::Bytes(b) => "<"@ + nat_text(b.len()) + " bytes>"@,
        ValueView::Timestamp(t) => int_text(t),
        _ => match cell.encoded {
            Some(t) => t@,
            None => "?"@,
        },
    }
}

/// What a table shows for a row.
pub open spec fn displayed_row(row: Seq<Cell>) -> Seq<Seq<char>> {
    row.map_values(|c: Cell| displayed(c))
}

/// `n` times the character `c`.
pub open spec fn repeated(c: char, n: nat) -> Seq<char> {
    Seq::new(n, |i: int| c)
}

/// The text with blanks behind it up to the width `n`.
pub open spec fn padded(s: Seq<char>, n: nat) -> Seq<char> {
    if s.len() >= n {
        s
    } else {
        s + repeated(' ', (n - s.len()) as nat)
    }
}

/// The cell at `i`, empty where the row has none.
pub open spec fn cell_at(cells: Seq<Seq<char>>, i: int) -> Seq<char> {
    if 0 <= i < cells.len() {
        cells[i]
    } else {
        Seq::empty()
    }
}

/// The cells of one line, each padded to the width of its column.
pub open spec fn padded_cells(cells: Seq<Seq<char>>, widths: Seq<nat>) -> Seq<Seq<char>> {
    Seq::new(widths.len(), |i: int| padded(cell_at(cells, i), widths[i]))
}

/// One line of a table, without blanks at its end.
pub open spec fn line(cells: Seq<Seq<char>>, widths: Seq<nat>) -> Seq<char> {
    trimmed_end(joined(padded_cells(cells, widths), " | "@)) + "\n"@
}

/// The width of column `i`: that of its widest cell, the header among them.
pub open spec fn column_width(headers: Seq<Seq<char>>, rows: Seq<Seq<Seq<char>>>, i: int) -> nat
    decreases rows.len(),
{
    if rows.len() == 0 {
        headers[i].len()
    } else {
        let before = column_width(headers, rows.drop_last(), i);
        let here = cell_at(rows.last(), i).len();
        if here > before {
            here
        } else {
            before
        }
    }
}

/// The widths of the columns.
pub open spec fn column_widths(headers: Seq<Seq<char>>, rows: Seq<Seq<Seq<char>>>) -> Seq<nat> {
    Seq::new(headers.len(), |i: int| column_width(headers, rows, i))
}

/// The rule under the header.
pub open spec fn rule(widths: Seq<nat>) -> Seq<Seq<char>> {
    widths.map_values(|n: nat| repeated('-', n))
}

/// The lines for the rows.
pub open spec fn lines(rows: Seq<Seq<Seq<char>>>, widths: Seq<nat>) -> Seq<char>
    decreases rows.len(),
{
    if rows.len() == 0 {
        Seq::empty()
    } else {
        lines(rows.drop_last(), widths) + line(rows.last(), widths)
    }
}

/// A table: the header, the rule, the rows.
pub open spec fn table(headers: Seq<Seq<char>>, rows: Seq<Seq<Seq<char>>>) -> Seq<char> {
    let widths = column_widths(headers, rows);
    line(headers, widths) + line(rule(widths), widths) + lines(rows, widths)
}

/// The texts of the cells, row by row.
pub open spec fn row_views(rows: Seq<Vec<String>>) -> Seq<Seq<Seq<char>>> {
    rows.map_values(|r: Vec<String>| views(r@))
}

/// The widths as numbers.
pub open spec fn width_views(widths: Seq<usize>) -> Seq<nat> {
    widths.map_values(|n: usize| n as nat)
}

/// What a table shows for a value; `encoded` is the outside text of a float or a nested value.
pub fn display_value(cell: &Cell) -> (r: String)
    ensures
        r@ == displayed(*cell),
{
    match &cell.value {
        Value::Null => "NULL".to_owned(),
        Value::Bool(b) => if *b {
            "true".to_owned()
        } else {
            "false".to_owned()
        },
        Value::Int(n) => signed_decimal(*n),
        Value::Text(s) => s.clone(),
        Value::Bytes(b) => {
            let mut r: String = "<".to_owned();
            r.append(decimal(b.len() as u64).as_str());
            r.append(" bytes>");
            r
        },
        Value::Timestamp(t) => signed_decimal(*t),
        _ => match &cell.encoded {
            Some(t) => t.clone(),
            None => "?".to_owned(),
        },
    }
}

fn repeat(c: char, n: usize) -> (r: String)
    ensures
        r@ == repeated(c, n as nat),
{
    let mut r: String = String::new();
    let mut i: usize = 0;
    while i < n
        invariant
            i <= n,
            r@ == repeated(c, i as nat),
        decreases n - i,
    {
        r.push(c);
        i = i + 1;
        assert(r@ =~= repeated(c, i as nat));
    }
    r
}

/// One line of a table.
pub fn write_row(cells: &Vec<String>, widths: &Vec<usize>) -> (r: String)
    ensures
        r@ == line(views(cells@), width_views(widths@)),
{
    let mut parts: Vec<String> = Vec::new();
    let mut i: usize = 0;
    let ghost all = padded_cells(views(cells@), width_views(widths@));
    while i < widths.len()
        invariant
            i <= widths.len(),
            all == padded_cells(views(cells@), width_views(widths@)),
            views(parts@) == all.take(i as int),
        decreases widths.len() - i,
    {
        let mut cell: String = if i < cells.len() {
            cells[i].clone()
        } else {
            String::new()
        };
        assert(cell@ == cell_at(views(cells@), i as int));
        let n: usize = chars_of(cell.as_str()).len();
        let ghost bare = cell@;
        if n < widths[i] {
            cell.append(repeat(' ', widths[i] - n).as_str());
        }
        assert(cell@ == padded(bare, widths@[i as int] as nat));
        let ghost had = views(parts@);
        let ghost added = cell@;
        parts.push(cell);
        assert(views(parts@) =~= had.push(added));
        assert(all[i as int] == added);
        i = i + 1;
        assert(views(parts@) =~= all.take(i as int));
    }
    assert(all.take(i as int) =~= all);
    let whole: String = join(&parts, " | ");
    let mut r: String = trim_end(whole.as_str());
    r.append("\n");
    r
}

fn table_widths(headers: &Vec<String>, rows: &Vec<Vec<String>>) -> (r: Vec<usize>)
    ensures
        width_views(r@) == column_widths(views(headers@), row_views(rows@)),
{
    let mut r: Vec<usize> = Vec::new();
    let mut i: usize = 0;
    let ghost hs = views(headers@);
    let ghost rs = row_views(rows@);
    while i < headers.len()
        invariant
            i <= headers.len(),
            hs == views(headers@),
            rs == row_views(rows@),
            r@.len() == i,
            forall|j: int| 0 <= j < i ==> #[trigger] r@[j] == column_width(hs, rs, j),
        decreases headers.len() - i,
    {
        let mut n: usize = chars_of(headers[i].as_str()).len();
        let mut k: usize = 0;
        assert(rs.take(0) =~= Seq::empty());
        while k < rows.len()
            invariant
                i < headers.len(),
                hs == views(headers@),
                rs == row_views(rows@),
                k <= rows.len(),
                n == column_width(hs, rs.take(k as int), i as int),
            decreases rows.len() - k,
        {
            let row: &Vec<String> = &rows[k];
            proof {
                assert(rs.take(k + 1).drop_last() =~= rs.take(k as int));
                assert(rs.take(k + 1).last() == views(row@));
            }
            if i < row.len() {
                let len: usize = chars_of(row[i].as_str()).len();
                if len > n {
                    n = len;
                }
            }
            k = k + 1;
        }
        assert(rs.take(k as int) =~= rs);
        r.push(n);
        i = i + 1;
    }
    assert(width_views(r@) =~= column_widths(hs, rs));
    r
}

/// A table: the header, a rule, then the rows, each column as wide as its widest cell.
pub fn render_table(headers: &Vec<String>, rows: &Vec<Vec<String>>) -> (r: String)
    ensures
        r@ == table(views(headers@), row_views(rows@)),
{
    let widths: Vec<usize> = table_widths(headers, rows);
    let ghost ws = width_views(widths@);
    let mut r: String = write_row(headers, &widths);
    let mut dashes: Vec<String> = Vec::new();
    let mut i: usize = 0;
    while i < widths.len()
        invariant
            i <= widths.len(),
            ws == width_views(widths@),
            dashes@.len() == i,
            forall|j: int| 0 <= j < i ==> (#[trigger] dashes@[j])@ == repeated('-', ws[j]),
        decreases widths.len() - i,
    {
        dashes.push(repeat('-', widths[i]));
        i = i + 1;
    }
    assert(views(dashes@) =~= rule(ws));
    r.append(write_row(&dashes, &widths).as_str());
    let ghost head = line(views(headers@), ws) + line(rule(ws), ws);
    let ghost rs = row_views(rows@);
    let mut k: usize = 0;
    assert(rs.take(0) =~= Seq::empty());
    assert(r@ =~= head + lines(rs.take(0), ws));
    while k < rows.len()
        invariant
            k <= rows.len(),
            rs == row_views(rows@),
            ws == width_views(widths@),
            r@ == head + lines(rs.take(k as int), ws),
        decreases rows.len() - k,
    {
        r.append(write_row(&rows[k], &widths).as_str());
        proof {
            assert(rs.take(k + 1).drop_last() =~= rs.take(k as int));
            assert(rs.take(k + 1).last() == views(rows@[k as int]@));
        }
        k = k + 1;
        assert(r@ =~= head + lines(rs.take(k as int), ws));
    }
    assert(rs.take(k as int) =~= rs);
    r
}

// ---- renderers -------------------------------------------------------------------------------

/// Turns what a statement gave into text, its last line ended.
pub trait Renderer {
    /// The text for rows.
    spec fn rows_text(&self, rows: RowSet) -> Seq<char>;

    /// The text for a plan.
    spec fn plan_text(&self, plan: PlanPreview) -> Seq<char>;

    /// The text for an error.
    spec fn error_text(&self, err: ExecError) -> Seq<char>;

    /// Renders rows.
    fn rows(&self, rows: &RowSet) -> (r: String)
        ensures
            r@ == self.rows_text(*rows),
    ;

    /// Renders a plan.
    fn plan(&self, plan: &PlanPreview) -> (r: String)
        ensures
            r@ == self.plan_text(*plan),
    ;

    /// Renders an error.
    fn error(&self, err: &ExecError) -> (r: String)
        ensures
            r@ == self.error_text(*err),
    ;
}

/// The renderer for machines.
#[derive(Debug, Clone, Copy)]
pub struct JsonRenderer;

/// The renderer for people.
#[derive(Debug, Clone, Copy)]
pub struct TableRenderer;

impl Default for JsonRenderer {
    fn default() -> (r: JsonRenderer)
        ensures
            r == JsonRenderer,
    {
        JsonRenderer
    }
}

impl Default for TableRenderer {
    fn default() -> (r: TableRenderer)
        ensures
            r == TableRenderer,
    {
        TableRenderer
    }
}

fn encoded_line(encoded: &Option<String>, fallback: &str) -> (r: String)
    ensures
        r@ == (match *encoded {
            Some(t) => t@,
            None => fallback@,
        }) + "\n"@,
{
    let mut r: String = match encoded {
        Some(t) => t.clone(),
        None => fallback.to_owned(),
    };
    r.append("\n");
    r
}

impl Renderer for JsonRenderer {
    open spec fn rows_text(&self, rows: RowSet) -> Seq<char> {
        (match rows.encoded {
            Some(t) => t@,
            None => "{\"rows\":[]}"@,
        }) + "\n"@
    }

    open spec fn plan_text(&self, plan: PlanPreview) -> Seq<char> {
        (match plan.encoded {
            Some(t) => t@,
            None => "{}"@,
        }) + "\n"@
    }

    open spec fn error_text(&self, err: ExecError) -> Seq<char> {
        envelope(err) + "\n"@
    }

    fn rows(&self, rows: &RowSet) -> (r: String) {
        encoded_line(&rows.encoded, "{\"rows\":[]}")
    }

    fn plan(&self, plan: &PlanPreview) -> (r: String) {
        encoded_line(&plan.encoded, "{}")
    }

    fn error(&self, err: &ExecError) -> (r: String) {
        let mut r: String = error_envelope(err);
        r.append("\n");
        r
    }
}

/// What a table shows for the rows of a set.
pub open spec fn displayed_rows(rows: Seq<Vec<Cell>>) -> Seq<Seq<Seq<char>>> {
    rows.map_values(|r: Vec<Cell>| displayed_row(r@))
}

fn display_rows(rows: &Vec<Vec<Cell>>) -> (r: Vec<Vec<String>>)
    ensures
        row_views(r@) == displayed_rows(rows@),
{
    let mut r: Vec<Vec<String>> = Vec::new();
    let mut i: usize = 0;
    while i < rows.len()
        invariant
            i <= rows.len(),
            r@.len() == i,
            forall|j: int| 0 <= j < i ==> views((#[trigger] r@[j])@) == displayed_row(rows@[j]@),
        decreases rows.len() - i,
    {
        let row: &Vec<Cell> = &rows[i];
        let mut cells: Vec<String> = Vec::new();
        let mut k: usize = 0;
        while k < row.len()
            invariant
                k <= row.len(),
                cells@.len() == k,
                forall|j: int| 0 <= j < k ==> (#[trigger] cells@[j])@ == displayed(row@[j]),
            decreases row.len() - k,
        {
            cells.push(display_value(&row[k]));
            k = k + 1;
        }
        assert(views(cells@) =~= displayed_row(row@));
        r.push(cells);
        i = i + 1;
    }
    assert(row_views(r@) =~= displayed_rows(rows@));
    r
}

impl Renderer for TableRenderer {
    open spec fn rows_text(&self, rows: RowSet) -> Seq<char> {
        let count = nat_text(rows.rows@.len());
        if rows.columns@.len() == 0 {
            "(0 columns, "@ + count + " row(s))\n"@
        } else {
            table(views(rows.columns@), displayed_rows(rows.rows@)) + "("@ + count + " row(s))\n"@
        }
    }

    open spec fn plan_text(&self, plan: PlanPreview) -> Seq<char> {
        (if plan.committed {
            "COMMITTED:\n"@
        } else {
            ""@
        }) + plan.preview@ + "\n"@
    }

    open spec fn error_text(&self, err: ExecError) -> Seq<char> {
        "error["@ + err.code@ + "]: "@ + err.message@ + (match err.path {
            Some(p) => " (at "@ + p@ + ")"@,
            None => ""@,
        }) + (match err.detail {
            Some(d) => " — "@ + d@,
            None => ""@,
        }) + "\n"@
    }

    fn rows(&self, rows: &RowSet) -> (r: String) {
        let count: String = decimal(rows.rows.len() as u64);
        if rows.columns.len() == 0 {
            let mut r: String = "(0 columns, ".to_owned();
            r.append(count.as_str());
            r.append(" row(s))\n");
            return r;
        }
        let cells: Vec<Vec<String>> = display_rows(&rows.rows);
        let mut r: String = render_table(&rows.columns, &cells);
        r.append("(");
        r.append(count.as_str());
        r.append(" row(s))\n");
        r
    }

    fn plan(&self, plan: &PlanPreview) -> (r: String) {
        let mut r: String = if plan.committed {
            "COMMITTED:\n".to_owned()
        } else {
            "".to_owned()
        };
        r.append(plan.preview.as_str());
        r.append("\n");
        r
    }

    fn error(&self, err: &ExecError) -> (r: String) {
        let at: String = match &err.path {
            Some(p) => {
                let mut t: String = " (at ".to_owned();
                t.append(p.as_str());
                t.append(")");
                t
            },
            None => "".to_owned(),
        };
        let more: String = match &err.detail {
            Some(d) => {
                let mut t: String = " — ".to_owned();
                t.append(d.as_str());
                t
            },
            None => "".to_owned(),
        };
        let mut r: String = "error[".to_owned();
        r.append(err.code.as_str());
        r.append("]: ");
        r.append(err.message.as_str());
        r.append(at.as_str());
        r.append(more.as_str());
        r.append("\n");
        r
    }
}

/// The format of the output.
#[derive(Debug, Clone, Copy, PartialEq, Eq, Structural)]
pub enum OutputFormat {
    /// For machines.
    Json,
    /// For people.
    Table,
}

/// One of the renderers.
#[derive(Debug, Clone, Copy)]
pub enum AnyRenderer {
    Json(JsonRenderer),
    Table(TableRenderer),
}

impl Renderer for AnyRenderer {
    open spec fn rows_text(&self, rows: RowSet) -> Seq<char> {
        match self {
            AnyRenderer::Json(r) => r.rows_text(rows),
            AnyRenderer::Table(r) => r.rows_text(rows),
        }
    }

    open spec fn plan_text(&self, plan: PlanPreview) -> Seq<char> {
        match self {
            AnyRenderer::Json(r) => r.plan_text(plan),
            AnyRenderer::Table(r) => r.plan_text(plan),
        }
    }

    open spec fn error_text(&self, err: ExecError) -> Seq<char> {
        match self {
            AnyRenderer::Json(r) => r.error_text(err),
            AnyRenderer::Table(r) => r.error_text(err),
        }
    }

    fn rows(&self, rows: &RowSet) -> (r: String) {
        match self {
            AnyRenderer::Json(r) => r.rows(rows),
            AnyRenderer::Table(r) => r.rows(rows),
        }
    }

    fn plan(&self, plan: &PlanPreview) -> (r: String) {
        match self {
            AnyRenderer::Json(r) => r.plan(plan),
            AnyRenderer::Table(r) => r.plan(plan),
        }
    }

    fn error(&self, err: &ExecError) -> (r: String) {
        match self {
            AnyRenderer::Json(r) => r.error(err),
            AnyRenderer::Table(r) => r.error(err),
        }
    }
}

impl OutputFormat {
    /// The renderer for the format.
    #[must_use]
    pub fn renderer(self) -> (r: AnyRenderer)
        ensures
            r == (match self {
                OutputFormat::Json => AnyRenderer::Json(JsonRenderer),
                OutputFormat::Table => AnyRenderer::Table(TableRenderer),
            }),
    {
        match self {
            OutputFormat::Json => AnyRenderer::Json(JsonRenderer),
            OutputFormat::Table => AnyRenderer::Table(TableRenderer),
        }
    }
}

// ---- laws ------------------------------------------------------------------------------------

/// The number that a hexadecimal digit in small letters stands for.
pub open spec fn hex_value(c: char) -> Option<int> {
    if '0' <= c <= '9' {
        Some(c as u32 - 48)
    } else if 'a' <= c <= 'f' {
        Some(c as u32 - 87)
    } else {
        None
    }
}

/// The control character that `\u00` and these two digits stand for.
pub open spec fn control_char(high: char, low: char) -> Option<char> {
    match (hex_value(high), hex_value(low)) {
        (Some(h), Some(l)) => if h < 2 {
            Some((h * 16 + l) as char)
        } else {
            None
        },
        _ => None,
    }
}

/// The text that the inside of a JSON string denotes, with the escapes that [`escaped`] writes;
/// `None` where a quote or a control character stands bare, or an escape is another one.
pub open spec fn unescaped(t: Seq<char>) -> Option<Seq<char>>
    decreases t.len(),
{
    if t.len() == 0 {
        Some(Seq::empty())
    } else if t[0] == '"' || (t[0] as u32) < 32 {
        None
    } else if t[0] != '\\' {
        match unescaped(t.subrange(1, t.len() as int)) {
            Some(rest) => Some(seq![t[0]] + rest),
            None => None,
        }
    } else if t.len() == 1 {
        None
    } else if t[1] == 'u' {
        if t.len() >= 6 && t[2] == '0' && t[3] == '0' {
            match (control_char(t[4], t[5]), unescaped(t.subrange(6, t.len() as int))) {
                (Some(c), Some(rest)) => Some(seq![c] + rest),
                _ => None,
            }
        } else {
            None
        }
    } else {
        let c = if t[1] == 'n' {
            Some('\n')
        } else if t[1] == 'r' {
            Some('\r')
        } else if t[1] == 't' {
            Some('\t')
        } else if t[1] == '"' || t[1] == '\\' {
            Some(t[1])
        } else {
            None
        };
        match (c, unescaped(t.subrange(2, t.len() as int))) {
            (Some(c), Some(rest)) => Some(seq![c] + rest),
            _ => None,
        }
    }
}

proof fn lemma_control_char(c: char)
    requires
        (c as u32) < 32,
    ensures
        control_char(
            hex_digit((c as u32 / 16) as int),
            hex_digit((c as u32 % 16) as int),
        ) == Some(c),
{
    let n = c as u32;
    assert(hex_value(hex_digit((n / 16) as int)) == Some((n / 16) as int));
    assert(hex_value(hex_digit((n % 16) as int)) == Some((n % 16) as int));
    assert((n / 16) * 16 + n % 16 == c as int);
}

/// An escaped text reads back as it was, so it is the inside of a proper JSON string: no quote or
/// backslash of it can end the string or start an escape of its own, and no control character
/// stands bare.
pub proof fn law_escaped_reads_back(s: Seq<char>)
    ensures
        unescaped(escaped(s)) == Some(s),
    decreases s.len(),
{
    let f = |c: char| escaped_char(c);
    if s.len() > 0 {
        let rest = s.drop_first();
        law_escaped_reads_back(rest);
        assert(s =~= seq![s[0]] + rest);
        lemma_replaced_concat(seq![s[0]], rest, f);
        assert(seq![s[0]].drop_last() =~= Seq::empty());
        assert(replaced(seq![s[0]], f) =~= f(s[0])) by {
            reveal_with_fuel(replaced, 2);
        }
        let head = escaped_char(s[0]);
        let t = escaped(s);
        assert(t =~= head + escaped(rest));
        assert(t.subrange(head.len() as int, t.len() as int) =~= escaped(rest));
        assert(t[0] == head[0]);
        if head.len() == 2 {
            assert(t[1] == head[1]);
        }
        if head.len() == 6 {
            assert(t[1] == head[1] && t[2] == head[2] && t[3] == head[3] && t[4] == head[4]
                && t[5] == head[5]);
            lemma_control_char(s[0]);
        }
    }
}

proof fn lemma_column_width(
    headers: Seq<Seq<char>>,
    rows: Seq<Seq<Seq<char>>>,
    i: int,
    k: int,
)
    requires
        0 <= i < headers.len(),
        0 <= k < rows.len(),
    ensures
        headers[i].len() <= column_width(headers, rows, i),
        cell_at(rows[k], i).len() <= column_width(headers, rows, i),
    decreases rows.len(),
{
    reveal_with_fuel(column_width, 2);
    if k < rows.len() - 1 {
        lemma_column_width(headers, rows.drop_last(), i, k);
        assert(rows.drop_last()[k] == rows[k]);
    } else if rows.len() > 1 {
        lemma_column_width(headers, rows.drop_last(), i, 0);
    }
}

/// The columns of a table are aligned: in every line, the header and the rows alike, the cell of
/// a column fills exactly the column's width, and no cell is cut.
pub proof fn law_columns_are_aligned(
    headers: Seq<Seq<char>>,
    rows: Seq<Seq<Seq<char>>>,
    i: int,
    k: int,
)
    requires
        0 <= i < headers.len(),
        0 <= k < rows.len(),
    ensures
        ({
            let widths = column_widths(headers, rows);
            let head = padded_cells(headers, widths)[i];
            let cell = padded_cells(rows[k], widths)[i];
            &&& head.len() == widths[i]
            &&& cell.len() == widths[i]
            &&& padded_cells(rule(widths), widths)[i] == repeated('-', widths[i])
            &&& head.take(headers[i].len() as int) == headers[i]
            &&& cell.take(cell_at(rows[k], i).len() as int) == cell_at(rows[k], i)
        }),
{
    lemma_column_width(headers, rows, i, k);
    let widths = column_widths(headers, rows);
    let head = padded_cells(headers, widths)[i];
    let cell = padded_cells(rows[k], widths)[i];
    assert(head.take(headers[i].len() as int) =~= headers[i]);
    assert(cell.take(cell_at(rows[k], i).len() as int) =~= cell_at(rows[k], i));
    assert(rule(widths)[i] == repeated('-', widths[i]));
}

/// The text of a table's cell without what stands round the number of bytes.
pub open spec fn bytes_shown(s: Seq<char>) -> Option<nat> {
    let n = " bytes>"@.len() as int;
    if s.len() > n + 1 && s[0] == '<' && s.subrange(s.len() - n, s.len() as int) == " bytes>"@ {
        nat_in(s.subrange(1, s.len() - n))
    } else {
        None
    }
}

/// What a shown text is read as, by the type of its column.
pub open spec fn read_shown(s: Seq<char>, ty: TypeView) -> Option<ValueView> {
    match ty {
        TypeView::Bool => if s.len() == 4 && s[0] == 't' {
            Some(ValueView::Bool(true))
        } else if s.len() == 5 && s[0] == 'f' {
            Some(ValueView::Bool(false))
        } else {
            None
        },
        TypeView::Int => match int_in(s) {
            Some(n) => Some(ValueView::Int(n)),
            None => None,
        },
        TypeView::Timestamp => match int_in(s) {
            Some(n) => Some(ValueView::Timestamp(n)),
            None => None,
        },
        TypeView::Text => Some(ValueView::Text(s)),
        _ => None,
    }
}

/// A table shows a boolean, an integer, a moment and a text so that reading what is shown, by the
/// column's type, gives the value back: two values of one such type are never shown alike.
pub proof fn law_shown_values_read_back(cell: Cell)
    ensures
        cell.value@ is Bool ==> read_shown(displayed(cell), TypeView::Bool) == Some(cell.value@),
        cell.value@ is Int ==> read_shown(displayed(cell), TypeView::Int) == Some(cell.value@),
        cell.value@ is Timestamp ==> read_shown(displayed(cell), TypeView::Timestamp) == Some(
            cell.value@,
        ),
        cell.value@ is Text ==> read_shown(displayed(cell), TypeView::Text) == Some(cell.value@),
{
    reveal_strlit("true");
    reveal_strlit("false");
    match cell.value@ {
        ValueView::Int(n) => law_numbers_read_back(n),
        ValueView::Timestamp(n) => law_numbers_read_back(n),
        _ => {},
    }
}

/// Of bytes a table tells the number, and nothing else: bytes of the same length are shown alike,
/// and the length reads back.
pub proof fn law_bytes_show_their_length(a: Cell, b: Cell)
    requires
        a.value@ is Bytes,
        b.value@ is Bytes,
    ensures
        bytes_shown(displayed(a)) == Some(a.value@->Bytes_0.len()),
        displayed(a) == displayed(b) <==> a.value@->Bytes_0.len() == b.value@->Bytes_0.len(),
{
    reveal_strlit("<");
    reveal_strlit(" bytes>");
    law_numbers_read_back(a.value@->Bytes_0.len() as int);
    law_numbers_read_back(b.value@->Bytes_0.len() as int);
    let n = " bytes>"@.len() as int;
    let s = displayed(a);
    assert(s.subrange(1, s.len() - n) =~= nat_text(a.value@->Bytes_0.len()));
    assert(s.subrange(s.len() - n, s.len() as int) =~= " bytes>"@);
    let t = displayed(b);
    assert(t.subrange(1, t.len() - n) =~= nat_text(b.value@->Bytes_0.len()));
    assert(t.subrange(t.len() - n, t.len() as int) =~= " bytes>"@);
}

/// A float and a nested value are shown as the text that came along with them, character for
/// character.
pub proof fn law_encoded_values_are_shown_as_they_came(cell: Cell, text: String)
    requires
        cell.value@ is Float || cell.value@ is Struct || cell.value@ is Array || cell.value@ is Json,
        cell.encoded == Some(text),
    ensures
        displayed(cell) == text@,
{
}

/// The lines of two runs of rows, one after the other, are those of the first and then those of
/// the second; one row is one line.
pub proof fn law_rows_are_lines_in_order(
    a: Seq<Seq<Seq<char>>>,
    b: Seq<Seq<Seq<char>>>,
    row: Seq<Seq<char>>,
    widths: Seq<nat>,
)
    ensures
        lines(a + b, widths) == lines(a, widths) + lines(b, widths),
        lines(seq![row], widths) == line(row, widths),
        lines(seq![row], widths).last() == '\n',
    decreases b.len(),
{
    reveal_strlit("\n");
    assert(seq![row].drop_last() =~= Seq::<Seq<Seq<char>>>::empty());
    assert(lines(seq![row].drop_last(), widths) =~= Seq::<char>::empty());
    assert(lines(seq![row], widths) =~= line(row, widths));
    if b.len() == 0 {
        assert(a + b =~= a);
        assert(lines(a, widths) + lines(b, widths) =~= lines(a, widths));
    } else {
        law_rows_are_lines_in_order(a, b.drop_last(), row, widths);
        assert((a + b).drop_last() =~= a + b.drop_last());
        assert((a + b).last() == b.last());
        assert(lines(a + b, widths) =~= lines(a, widths) + lines(b, widths));
    }
}

/// The renderer of a format renders rows, plans and errors all in that format; in JSON a document
/// that was handed along is what is written, on a line of its own, and the empty document stands in
/// where there is none.
pub proof fn law_a_format_renders_all_alike(
    format: OutputFormat,
    chosen: AnyRenderer,
    rows: RowSet,
    plan: PlanPreview,
    err: ExecError,
)
    requires
        call_ensures(OutputFormat::renderer, (format,), chosen),
    ensures
        format is Json ==> {
            &&& chosen.rows_text(rows) == JsonRenderer.rows_text(rows)
            &&& chosen.plan_text(plan) == JsonRenderer.plan_text(plan)
            &&& chosen.error_text(err) == JsonRenderer.error_text(err)
        },
        format is Table ==> {
            &&& chosen.rows_text(rows) == TableRenderer.rows_text(rows)
            &&& chosen.plan_text(plan) == TableRenderer.plan_text(plan)
            &&& chosen.error_text(err) == TableRenderer.error_text(err)
        },
        rows.encoded matches Some(t) ==> JsonRenderer.rows_text(rows) == t@ + "\n"@,
        plan.encoded matches Some(t) ==> JsonRenderer.plan_text(plan) == t@ + "\n"@,
{
}

/// A value that is not there is shown apart from every value that is a number or a truth.
pub proof fn law_null_is_told_apart(nothing: Cell, cell: Cell)
    requires
        nothing.value@ is Null,
        cell.value@ is Bool || cell.value@ is Int || cell.value@ is Timestamp || cell.value@ is Bytes,
    ensures
        displayed(nothing) != displayed(cell),
        displayed(nothing) == "NULL"@,
{
    law_shown_values_read_back(cell);
    reveal_strlit("NULL");
    reveal_strlit("true");
    reveal_strlit("false");
    assert("NULL"@[0] == 'N' && "true"@[0] == 't' && "false"@[0] == 'f');
    if cell.value@ is Int || cell.value@ is Timestamp {
        assert("NULL"@.last() == 'L');
        assert(nat_in("NULL"@) is None);
        assert("NULL"@.drop_first().last() == 'L');
        assert(int_in("NULL"@) is None);
    }
    if cell.value@ is Bytes {
        law_bytes_show_their_length(cell, cell);
        assert(bytes_shown("NULL"@) is None);
    }
}

/// What is shown of a value reads back as that value: truths, integers, moments and texts; of bytes
/// their number. So no two of a kind are shown alike, but bytes of the same length.
pub proof fn law_displayed_values_read_back(cell: Cell, shown: String)
    requires
        call_ensures(display_value, (&cell,), shown),
    ensures
        match cell.value@ {
            ValueView::Null => shown@ == "NULL"@,
            ValueView::Bool(b) => read_shown(shown@, TypeView::Bool) == Some(ValueView::Bool(b)),
            ValueView::Int(n) => int_in(shown@) == Some(n),
            ValueView::Timestamp(t) => int_in(shown@) == Some(t),
            ValueView::Text(s) => shown@ == s,
            ValueView::Bytes(b) => bytes_shown(shown@) == Some(b.len()),
            _ => cell.encoded matches Some(t) ==> shown@ == t@,
        },
{
    law_shown_values_read_back(cell);
    if cell.value@ is Bytes {
        law_bytes_show_their_length(cell, cell);
    }
}

/// A plan that was applied says so on a first line of its own, and is shown otherwise as it was
/// when it was previewed.
pub proof fn law_applied_plans_say_so(done: PlanPreview, previewed: PlanPreview)
    requires
        done.committed,
        !previewed.committed,
        done.preview@ == previewed.preview@,
    ensures
        TableRenderer.plan_text(done) == "COMMITTED:\n"@ + TableRenderer.plan_text(previewed),
        TableRenderer.plan_text(previewed) == previewed.preview@ + "\n"@,
{
    reveal_strlit("");
    assert(""@ + previewed.preview@ + "\n"@ =~= previewed.preview@ + "\n"@);
    assert("COMMITTED:\n"@ + done.preview@ + "\n"@ =~= "COMMITTED:\n"@ + (done.preview@ + "\n"@));
}

} // verus!

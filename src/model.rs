//! The mathematical model of tables and builders: what their contents are as
//! sequences of text, how a line splits into fields, and how fields join into
//! a line.
use vstd::prelude::*;

verus! {

/// The fields of a line, split at every occurrence of `sep`.
/// This always yields at least one field: the empty line has one empty field.
pub open spec fn split_spec(s: Seq<char>, sep: char) -> Seq<Seq<char>>
    decreases s.len(),
{
    if s.len() == 0 {
        seq![Seq::empty()]
    } else {
        let init = split_spec(s.drop_last(), sep);
        if s.last() == sep {
            init.push(Seq::empty())
        } else {
            init.update(init.len() - 1, init.last().push(s.last()))
        }
    }
}

/// The fields of a line as a table sees them: an empty line has none.
pub open spec fn fields_of(s: Seq<char>, sep: char) -> Seq<Seq<char>> {
    if s.len() == 0 {
        Seq::empty()
    } else {
        split_spec(s, sep)
    }
}

/// The text of a sequence of strings.
pub open spec fn texts(v: Seq<String>) -> Seq<Seq<char>> {
    v.map_values(|s: String| s@)
}

/// Splitting yields at least one field.
pub proof fn lemma_split_nonempty(s: Seq<char>, sep: char)
    ensures
        split_spec(s, sep).len() >= 1,
    decreases s.len(),
{
    if s.len() > 0 {
        lemma_split_nonempty(s.drop_last(), sep);
    }
}

/// The line made of `fields` with `sep` between each two of them.
pub open spec fn join_spec(f: Seq<Seq<char>>, sep: char) -> Seq<char>
    decreases f.len(),
{
    if f.len() == 0 {
        Seq::empty()
    } else if f.len() == 1 {
        f[0]
    } else {
        join_spec(f.drop_last(), sep) + seq![sep] + f.last()
    }
}

/// Each row as one comma-joined line.
pub open spec fn joined_rows(rows: Seq<Seq<Seq<char>>>) -> Seq<Seq<char>> {
    rows.map_values(|r: Seq<Seq<char>>| join_spec(r, ','))
}

/// The lines that a table is written as: the header, only when it has a
/// field, then one line per row, all joined with commas.
pub open spec fn lines_spec(t: TableModel) -> Seq<Seq<char>> {
    let body = joined_rows(t.rows);
    if t.header.len() > 0 {
        seq![join_spec(t.header, ',')] + body
    } else {
        body
    }
}

/// What a table holds: the column names and the rows, as text.
pub struct TableModel {
    pub header: Seq<Seq<char>>,
    pub rows: Seq<Seq<Seq<char>>>,
}

/// The position of the first entry of `h` equal to `name`, if any.
pub open spec fn column_of(h: Seq<Seq<char>>, name: Seq<char>) -> Option<int>
    decreases h.len(),
{
    if h.len() == 0 {
        None
    } else {
        match column_of(h.drop_last(), name) {
            Some(c) => Some(c),
            None => if h.last() == name {
                Some(h.len() - 1)
            } else {
                None
            },
        }
    }
}

impl TableModel {
    /// The value at a position: present exactly when the row exists and
    /// that row has the column.
    pub open spec fn cell(self, row: int, col: int) -> Option<Seq<char>> {
        if 0 <= row < self.rows.len() && 0 <= col < self.rows[row].len() {
            Some(self.rows[row][col])
        } else {
            None
        }
    }

    /// The value in a row under the first column called `name`.
    pub open spec fn cell_by_name(self, row: int, name: Seq<char>) -> Option<Seq<char>> {
        match column_of(self.header, name) {
            Some(col) => self.cell(row, col),
            None => None,
        }
    }

    /// The same table with one cell replaced.
    pub open spec fn set_cell(self, row: int, col: int, v: Seq<char>) -> TableModel {
        TableModel { header: self.header, rows: self.rows.update(row, self.rows[row].update(col, v)) }
    }
}

/// The text of an optional string.
pub open spec fn opt_text(o: Option<String>) -> Option<Seq<char>> {
    match o {
        Some(s) => Some(s@),
        None => None,
    }
}

/// What a builder holds: the raw header line, the raw row lines, the
/// separator and whether the first line read is the header.
pub struct BuilderModel {
    pub header: Seq<char>,
    pub rows: Seq<Seq<char>>,
    pub separator: char,
    pub has_header: bool,
}

/// The table that a builder yields: every line split at its separator.
pub open spec fn build_spec(b: BuilderModel) -> TableModel {
    TableModel {
        header: fields_of(b.header, b.separator),
        rows: b.rows.map_values(|r: Seq<char>| fields_of(r, b.separator)),
    }
}

/// A builder after reading `lines`: when it expects a header, the first line
/// (none, if there are no lines) becomes the header text; the other lines are
/// added as rows.
pub open spec fn read_lines_spec(b: BuilderModel, lines: Seq<Seq<char>>) -> BuilderModel {
    if b.has_header {
        BuilderModel {
            header: if lines.len() > 0 {
                lines[0]
            } else {
                Seq::empty()
            },
            rows: if lines.len() > 0 {
                b.rows + lines.drop_first()
            } else {
                b.rows
            },
            ..b
        }
    } else {
        BuilderModel { rows: b.rows + lines, ..b }
    }
}

} // verus!

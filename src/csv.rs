//! Tables of text and the builder that makes them from lines.
use vstd::prelude::*;
use vstd::string::StringExecFns;

use crate::model::{
    build_spec, column_of, fields_of, join_spec, joined_rows, lemma_split_nonempty, lines_spec,
    opt_text, read_lines_spec, split_spec, texts, BuilderModel, TableModel,
};

verus! {

broadcast use vstd::string::axiom_spec_iter, vstd::string::next_postcondition;

/// A table of text: a header of column names and rows of fields.
/// Rows need not have the same length as each other or as the header.
#[derive(Debug)]
pub struct CSVFile {
    pub header: Vec<String>,
    pub data: Vec<Vec<String>>,
}

impl View for CSVFile {
    type V = TableModel;

    open spec fn view(&self) -> TableModel {
        TableModel {
            header: texts(self.header@),
            rows: self.data@.map_values(|r: Vec<String>| texts(r@)),
        }
    }
}

impl CSVFile {
    /// Returns the value in a row under the first column named `header_name`;
    /// `None` when there is no such column or the cell is out of range.
    pub fn get_value_by_name(&self, row_index: usize, header_name: &String) -> (r: Option<String>)
        ensures
            opt_text(r) == self@.cell_by_name(row_index as int, header_name@),
    {
        match self.column_index(header_name) {
            Some(col_index) => self.get_value_by_index(row_index, col_index),
            None => None,
        }
    }

    /// The position of the first column named `name`.
    fn column_index(&self, name: &String) -> (r: Option<usize>)
        ensures
            r matches Some(c) ==> column_of(self@.header, name@) == Some(c as int),
            r is None ==> column_of(self@.header, name@) is None,
    {
        let mut i: usize = 0;
        while i < self.header.len()
            invariant
                i <= self.header.len(),
                column_of(self@.header.take(i as int), name@) is None,
            decreases self.header.len() - i,
        {
            proof {
                assert(self@.header.take(i + 1).drop_last() == self@.header.take(i as int));
            }
            if self.header[i] == *name {
                proof {
                    lemma_column_of_prefix(self@.header, name@, i + 1);
                }
                return Some(i);
            }
            i = i + 1;
        }
        assert(self@.header.take(i as int) == self@.header);
        None
    }

    /// Replaces the value in a row under the first column named `header_name`
    /// and returns the value it held. Fails, changing nothing, when there is no
    /// such column or the cell is out of range.
    pub fn set_value_by_name(&mut self, row_index: usize, header_name: &String, value: String)
        -> (r: Result<String, &'static str>)
        ensures
            r is Ok <==> old(self)@.cell_by_name(row_index as int, header_name@) is Some,
            r matches Ok(prev) ==> ({
                let col = column_of(old(self)@.header, header_name@)->0;
                &&& old(self)@.cell(row_index as int, col) == Some(prev@)
                &&& final(self)@ == old(self)@.set_cell(row_index as int, col, value@)
            }),
            r matches Err(e) ==> e@ == "Out of bounds"@ && *final(self) == *old(self),
    {
        match self.column_index(header_name) {
            Some(col_index) => self.set_value_by_index(row_index, col_index, value),
            None => Err("Out of bounds"),
        }
    }

    /// Replaces the value at a row and column position and returns the value
    /// it held. Fails, changing nothing, when the row does not exist or is too
    /// short.
    pub fn set_value_by_index(&mut self, row_index: usize, col_index: usize, value: String)
        -> (r: Result<String, &'static str>)
        ensures
            r is Ok <==> old(self)@.cell(row_index as int, col_index as int) is Some,
            r matches Ok(prev) ==> old(self)@.cell(row_index as int, col_index as int) == Some(
                prev@,
            ),
            r is Ok ==> final(self)@ == old(self)@.set_cell(
                row_index as int,
                col_index as int,
                value@,
            ),
            r matches Err(e) ==> e@ == "Out of bounds"@ && *final(self) == *old(self),
    {
        if row_index >= self.data.len() || col_index >= self.data[row_index].len() {
            return Err("Out of bounds");
        }
        let mut prev = value;
        std::mem::swap(&mut self.data[row_index][col_index], &mut prev);
        proof {
            let ghost row = old(self)@.rows[row_index as int].update(col_index as int, value@);
            assert(texts(self.data@[row_index as int]@) =~= row);
            assert(self@.rows =~= old(self)@.rows.update(row_index as int, row));
        }
        Ok(prev)
    }

    /// The lines of text that this table is written as. The header comes
    /// first when it has any field; each row follows, its fields joined by a
    /// comma whatever separator it was read with.
    pub fn to_lines(&self) -> (r: Vec<String>)
        ensures
            texts(r@) == lines_spec(self@),
    {
        let mut lines: Vec<String> = Vec::new();
        if self.header.len() > 0 {
            lines.push(join_fields(&self.header));
        }
        let ghost first = texts(lines@);
        let mut i: usize = 0;
        while i < self.data.len()
            invariant
                i <= self.data.len(),
                texts(lines@) == first + joined_rows(self@.rows.take(i as int)),
            decreases self.data.len() - i,
        {
            let line = join_fields(&self.data[i]);
            let ghost before = texts(lines@);
            lines.push(line);
            proof {
                let ghost done = joined_rows(self@.rows.take(i as int));
                assert(joined_rows(self@.rows.take(i + 1)) =~= done.push(line@));
                assert(texts(lines@) =~= before.push(line@));
                assert(first + done.push(line@) =~= (first + done).push(line@));
            }
            i = i + 1;
        }
        proof {
            assert(self@.rows.take(i as int) == self@.rows);
            assert(texts(lines@) =~= lines_spec(self@));
        }
        lines
    }

    /// Returns the value at a row and column position, or `None` when the row
    /// does not exist or is too short.
    pub fn get_value_by_index(&self, row_index: usize, col_index: usize) -> (r: Option<String>)
        ensures
            opt_text(r) == self@.cell(row_index as int, col_index as int),
    {
        if row_index < self.data.len() && col_index < self.data[row_index].len() {
            Some(self.data[row_index][col_index].clone())
        } else {
            None
        }
    }
}

/// Gathers raw lines and settings, then splits them into a [`CSVFile`].
pub struct CSVBuilder {
    pub(crate) header: String,
    pub(crate) rows: Vec<String>,
    pub(crate) separator: char,
    pub(crate) has_header: bool,
}

impl View for CSVBuilder {
    type V = BuilderModel;

    closed spec fn view(&self) -> BuilderModel {
        BuilderModel {
            header: self.header@,
            rows: texts(self.rows@),
            separator: self.separator,
            has_header: self.has_header,
        }
    }
}

impl CSVBuilder {
    /// An empty builder: no header text, no rows, a comma as separator, and
    /// the first line read taken as the header.
    pub fn new() -> (r: CSVBuilder)
        ensures
            r@ == (BuilderModel {
                header: Seq::empty(),
                rows: Seq::empty(),
                separator: ',',
                has_header: true,
            }),
    {
        let r = CSVBuilder { header: String::new(), rows: Vec::new(), separator: ',', has_header: true };
        assert(r@.rows =~= Seq::<Seq<char>>::empty());
        r
    }

    /// Sets the character that separates fields.
    pub fn separator(self, separator: char) -> (r: CSVBuilder)
        ensures
            r@ == (BuilderModel { separator, ..self@ }),
    {
        CSVBuilder { separator, ..self }
    }

    /// Sets whether the first line read is the header.
    pub fn has_header(self, has_header: bool) -> (r: CSVBuilder)
        ensures
            r@ == (BuilderModel { has_header, ..self@ }),
    {
        CSVBuilder { has_header, ..self }
    }

    /// Sets the raw header line.
    pub fn header(self, header: String) -> (r: CSVBuilder)
        ensures
            r@ == (BuilderModel { header: header@, ..self@ }),
    {
        CSVBuilder { header, ..self }
    }

    /// Adds one raw row line at the end.
    pub fn row(self, row: String) -> (r: CSVBuilder)
        ensures
            r@ == (BuilderModel { rows: self@.rows.push(row@), ..self@ }),
    {
        let ghost rv = row@;
        let mut b = self;
        b.rows.push(row);
        assert(texts(b.rows@) =~= texts(self.rows@).push(rv));
        b
    }

    /// Splits one line of text into its fields at each `separator`.
    /// No quoting or trimming is done; an empty line gives no fields at all.
    pub fn parse_from_string(input: &str, separator: char) -> (r: Vec<String>)
        ensures
            texts(r@) == fields_of(input@, separator),
            input@.len() == 0 ==> r@.len() == 0,
    {
        let mut fields: Vec<String> = Vec::new();
        if input.is_empty() {
            return fields;
        }
        let ghost s = input@;
        let n = input.unicode_len();
        assert(s.take(0) == Seq::<char>::empty());
        assert(texts(fields@) == Seq::<Seq<char>>::empty());
        let mut start: usize = 0;
        let mut i: usize = 0;
        for c in it: input.chars()
            invariant
                s == input@,
                it.seq() == s,
                i == it.index(),
                n == s.len(),
                start <= i <= n,
                split_spec(s.take(i as int), separator) == texts(fields@).push(
                    s.subrange(start as int, i as int),
                ),
        {
            proof {
                lemma_split_nonempty(s.take(i as int), separator);
                assert(s.take(i + 1).drop_last() == s.take(i as int));
                assert(s.take(i + 1).last() == c);
            }
            if c == separator {
                let field = input.substring_char(start, i).to_owned();
                fields.push(field);
                start = i + 1;
                assert(texts(fields@) == texts(fields@).drop_last().push(field@));
                assert(s.subrange(start as int, i + 1) == Seq::<char>::empty());
            } else {
                assert(s.subrange(start as int, i + 1) == s.subrange(start as int, i as int).push(c));
            }
            i = i + 1;
        }
        assert(s.take(i as int) == s);
        let last = input.substring_char(start, i).to_owned();
        fields.push(last);
        assert(texts(fields@) == texts(fields@).drop_last().push(last@));
        fields
    }

    /// Splits the header and every row at the separator and yields the table.
    pub fn build(self) -> (r: CSVFile)
        ensures
            r@ == build_spec(self@),
    {
        let header = Self::parse_from_string(self.header.as_str(), self.separator);
        let mut data: Vec<Vec<String>> = Vec::new();
        let ghost rows = self@.rows;
        let ghost sep = self.separator;
        let mut i: usize = 0;
        while i < self.rows.len()
            invariant
                rows == texts(self.rows@),
                sep == self.separator,
                i <= self.rows.len(),
                data@.len() == i,
                forall|k: int| 0 <= k < i ==> texts(#[trigger] data@[k]@) == fields_of(rows[k], sep),
            decreases self.rows.len() - i,
        {
            let fields = Self::parse_from_string(self.rows[i].as_str(), self.separator);
            data.push(fields);
            i = i + 1;
        }
        let r = CSVFile { header, data };
        assert(r@.rows =~= build_spec(self@).rows);
        r
    }

    /// Reads `lines` in order, as a line source would hand them over, and
    /// yields the table: when a header is expected the first line is the
    /// header, and the rest are rows.
    pub fn parse_lines(self, lines: Vec<String>) -> (r: CSVFile)
        ensures
            r@ == build_spec(read_lines_spec(self@, texts(lines@))),
    {
        let mut b = self;
        let mut i: usize = 0;
        if b.has_header {
            if lines.len() > 0 {
                b = b.header(lines[0].clone());
                i = 1;
            } else {
                b = b.header(String::new());
            }
        }
        let ghost start = b@;
        let ghost first = i as int;
        let ghost ls = texts(lines@);
        proof {
            assert(ls.subrange(first, first) =~= Seq::<Seq<char>>::empty());
            assert(start.rows + Seq::<Seq<char>>::empty() =~= start.rows);
        }
        while i < lines.len()
            invariant
                ls == texts(lines@),
                ls.len() == lines@.len(),
                0 <= first <= i <= lines.len(),
                b@ == (BuilderModel { rows: start.rows + ls.subrange(first, i as int), ..start }),
            decreases lines.len() - i,
        {
            let ghost done = ls.subrange(first, i as int);
            b = b.row(lines[i].clone());
            proof {
                assert(ls.subrange(first, i + 1) =~= done.push(ls[i as int]));
                assert(start.rows + done.push(ls[i as int]) =~= (start.rows + done).push(ls[i as int]));
            }
            i = i + 1;
        }
        proof {
            if lines.len() > 0 {
                assert(ls.drop_first() =~= ls.subrange(1, ls.len() as int));
            }
            assert(ls.subrange(0, ls.len() as int) =~= ls);
            assert(b@ == read_lines_spec(self@, ls));
        }
        b.build()
    }
}

/// Joins fields into one line with a comma between each two of them.
pub fn join_fields(fields: &Vec<String>) -> (r: String)
    ensures
        r@ == join_spec(texts(fields@), ','),
{
    let mut out = String::new();
    if fields.len() == 0 {
        return out;
    }
    out.append(fields[0].as_str());
    let ghost f = texts(fields@);
    proof {
        assert(f.take(1).len() == 1);
    }
    let mut i: usize = 1;
    while i < fields.len()
        invariant
            f == texts(fields@),
            1 <= i <= fields.len(),
            out@ == join_spec(f.take(i as int), ','),
        decreases fields.len() - i,
    {
        let ghost before = out@;
        out.append(",");
        out.append(fields[i].as_str());
        proof {
            assert(f.take(i + 1).drop_last() == f.take(i as int));
            assert(f.take(i + 1).last() == f[i as int]);
            assert(f[i as int] == fields@[i as int]@);
            reveal_strlit(",");
            assert(","@ =~= seq![',']);
            assert(out@ =~= before + seq![','] + f[i as int]);
        }
        i = i + 1;
    }
    proof {
        assert(f.take(i as int) == f);
    }
    out
}

/// A first match in a prefix of the header is the first match in the whole header.
proof fn lemma_column_of_prefix(h: Seq<Seq<char>>, name: Seq<char>, k: int)
    requires
        0 <= k <= h.len(),
        column_of(h.take(k), name) is Some,
    ensures
        column_of(h, name) == column_of(h.take(k), name),
    decreases h.len() - k,
{
    if k < h.len() {
        assert(h.take(k + 1).drop_last() == h.take(k));
        lemma_column_of_prefix(h, name, k + 1);
    } else {
        assert(h.take(k) == h);
    }
}

} // verus!

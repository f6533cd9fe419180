//! Properties that hold across the operations of the library.
use vstd::prelude::*;

use crate::model::{
    build_spec, column_of, fields_of, join_spec, joined_rows, lemma_split_nonempty, lines_spec,
    read_lines_spec, split_spec, BuilderModel, TableModel,
};

verus! {

/// Joining the fields of a line with its own separator gives the line back.
pub proof fn lemma_join_split(s: Seq<char>, sep: char)
    ensures
        join_spec(split_spec(s, sep), sep) == s,
    decreases s.len(),
{
    if s.len() > 0 {
        let init = split_spec(s.drop_last(), sep);
        lemma_join_split(s.drop_last(), sep);
        lemma_split_nonempty(s.drop_last(), sep);
        let f = split_spec(s, sep);
        if s.last() == sep {
            assert(f.drop_last() =~= init);
            assert(s =~= s.drop_last() + seq![sep] + Seq::<char>::empty());
        } else if init.len() == 1 {
            assert(f[0] =~= s);
        } else {
            assert(f.drop_last() =~= init.drop_last());
            let j = join_spec(init.drop_last(), sep);
            assert(s.drop_last() == j + seq![sep] + init.last());
            assert(s =~= s.drop_last().push(s.last()));
            assert(s =~= join_spec(init.drop_last(), sep) + seq![sep] + init.last().push(s.last()));
        }
    } else {
        assert(split_spec(s, sep) =~= seq![Seq::<char>::empty()]);
    }
}

/// Splitting the comma-joined fields of a comma-separated line gives the
/// same fields again.
pub proof fn lemma_fields_join_fields(s: Seq<char>)
    ensures
        fields_of(join_spec(fields_of(s, ','), ','), ',') == fields_of(s, ','),
{
    if s.len() > 0 {
        lemma_join_split(s, ',');
    } else {
        assert(fields_of(s, ',') =~= Seq::<Seq<char>>::empty());
    }
}

/// A fresh comma-separated builder, with or without a header.
pub open spec fn comma_builder(has_header: bool) -> BuilderModel {
    BuilderModel { header: Seq::empty(), rows: Seq::empty(), separator: ',', has_header }
}

/// Reading comma-separated lines into a table, writing the table back out as
/// lines and reading those again gives the same table: the same header, the
/// same number of rows, the same fields. When a header is read, its line must
/// not be empty, since a header without fields is not written at all.
pub proof fn lemma_round_trip(lines: Seq<Seq<char>>, has_header: bool)
    requires
        has_header && lines.len() > 0 ==> lines[0].len() > 0,
    ensures
        ({
            let b = comma_builder(has_header);
            let t = build_spec(read_lines_spec(b, lines));
            build_spec(read_lines_spec(b, lines_spec(t))) == t
        }),
{
    let b = comma_builder(has_header);
    let t = build_spec(read_lines_spec(b, lines));
    let out = lines_spec(t);
    let back = build_spec(read_lines_spec(b, out));
    let body = joined_rows(t.rows);
    assert forall|k: int| 0 <= k < t.rows.len() implies fields_of(#[trigger] body[k], ',') == t.rows[k] by {
        let raw = read_lines_spec(b, lines).rows;
        lemma_fields_join_fields(raw[k]);
    }
    if has_header && lines.len() > 0 {
        lemma_split_nonempty(lines[0], ',');
        lemma_join_split(lines[0], ',');
        assert(out[0] == lines[0]);
        assert(out.drop_first() =~= body);
        assert(Seq::<Seq<char>>::empty() + out.drop_first() =~= body);
    } else if has_header {
        assert(t.header =~= Seq::<Seq<char>>::empty());
        assert(t.rows =~= Seq::<Seq<Seq<char>>>::empty());
        assert(out =~= Seq::<Seq<char>>::empty());
    } else {
        assert(t.header =~= Seq::<Seq<char>>::empty());
        assert(out =~= body);
        assert(Seq::<Seq<char>>::empty() + out =~= body);
    }
    assert(back.header =~= t.header);
    assert(back.rows =~= t.rows);
}

/// A cell is present exactly when its row exists and that row is long enough
/// for its column. Replacing a present cell changes that cell alone.
pub proof fn lemma_cell_bounds(t: TableModel, row: int, col: int, v: Seq<char>)
    ensures
        t.cell(row, col) is Some <==> (0 <= row < t.rows.len() && 0 <= col < t.rows[row].len()),
        t.cell(row, col) is Some ==> ({
            let u = t.set_cell(row, col, v);
            &&& u.cell(row, col) == Some(v)
            &&& u.header == t.header
            &&& u.rows.len() == t.rows.len()
            &&& forall|i: int, j: int| (i, j) != (row, col) ==> u.cell(i, j) == t.cell(i, j)
        }),
{
}

/// A name resolves to the first column of the header that carries it, and a
/// lookup by name is the lookup by that column's position; a name that no
/// column carries finds nothing.
pub proof fn lemma_name_resolution(t: TableModel, row: int, name: Seq<char>)
    ensures
        column_of(t.header, name) matches Some(c) ==> {
            &&& 0 <= c < t.header.len()
            &&& t.header[c] == name
            &&& forall|j: int| 0 <= j < c ==> t.header[j] != name
            &&& t.cell_by_name(row, name) == t.cell(row, c)
        },
        column_of(t.header, name) is None ==> {
            &&& forall|j: int| 0 <= j < t.header.len() ==> t.header[j] != name
            &&& t.cell_by_name(row, name) is None
        },
{
    lemma_column_of_first(t.header, name);
}

proof fn lemma_column_of_first(h: Seq<Seq<char>>, name: Seq<char>)
    ensures
        column_of(h, name) matches Some(c) ==> {
            &&& 0 <= c < h.len()
            &&& h[c] == name
            &&& forall|j: int| 0 <= j < c ==> h[j] != name
        },
        column_of(h, name) is None ==> forall|j: int| 0 <= j < h.len() ==> h[j] != name,
    decreases h.len(),
{
    if h.len() > 0 {
        lemma_column_of_first(h.drop_last(), name);
        assert forall|j: int| 0 <= j < h.len() - 1 implies h[j] == h.drop_last()[j] by {}
    }
}

} // verus!

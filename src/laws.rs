use vstd::prelude::*;

use crate::dbpath::{
    close_segment, escape_spec, filter_spec, render_filter, segments, segments_from,
    select_spec, translate, DbPathView, MSG_BAD_ORDER, MSG_BAD_SPEC, MSG_BAD_START,
    MSG_TOO_MANY_PARTS,
};
use crate::text::{lemma_concat_lacks, lemma_replace_lacks, lemma_strip_removes, replace_all};

verus! {

/// A rendered filter holds no `;`, whatever the input held.
pub proof fn lemma_filter_has_no_semicolon(s: Seq<char>)
    ensures
        !render_filter(s).contains(';'),
{
    let stripped = replace_all(s, seq![';'], seq![]);
    let eq = replace_all(stripped, seq!['=', '='], seq!['=']);
    let ne = replace_all(eq, seq!['!', '='], seq!['<', '>']);
    let and = replace_all(ne, seq!['&'], seq![' ', 'A', 'N', 'D', ' ']);
    lemma_strip_removes(s, ';');
    lemma_literal_lacks_semicolon();
    lemma_replace_lacks(stripped, seq!['=', '='], seq!['='], ';');
    lemma_replace_lacks(eq, seq!['!', '='], seq!['<', '>'], ';');
    lemma_replace_lacks(ne, seq!['&'], seq![' ', 'A', 'N', 'D', ' '], ';');
    lemma_replace_lacks(and, seq!['|'], seq![' ', 'O', 'R', ' '], ';');
}

/// An escaped table name or column list holds no `;`.
pub proof fn lemma_escape_has_no_semicolon(s: Seq<char>)
    ensures
        !escape_spec(s).contains(';'),
{
    let quoted = replace_all(s, seq!['\''], seq!['\'', '\'']);
    let dquoted = replace_all(quoted, seq!['"'], seq!['\\', '"']);
    lemma_strip_removes(dquoted, ';');
}

/// The replacement texts used in rendering hold no `;`.
proof fn lemma_literal_lacks_semicolon()
    ensures
        !seq!['='].contains(';'),
        !seq!['<', '>'].contains(';'),
        !seq![' ', 'A', 'N', 'D', ' '].contains(';'),
        !seq![' ', 'O', 'R', ' '].contains(';'),
{
    let a = seq!['='];
    let b = seq!['<', '>'];
    let c = seq![' ', 'A', 'N', 'D', ' '];
    let d = seq![' ', 'O', 'R', ' '];
    assert forall|i: int| 0 <= i < a.len() implies a[i] != ';' by {}
    assert forall|i: int| 0 <= i < b.len() implies b[i] != ';' by {}
    assert forall|i: int| 0 <= i < c.len() implies c[i] != ';' by {}
    assert forall|i: int| 0 <= i < d.len() implies d[i] != ';' by {}
}

/// No table name, column list or filter that a path yields holds a `;`.
pub proof fn lemma_translate_has_no_semicolon(p: Seq<char>)
    ensures
        match translate(p) {
            DbPathView::Table(t) => !t.contains(';'),
            DbPathView::TableColumns { table, columns } => !table.contains(';') && !columns.contains(
                ';',
            ),
            DbPathView::TableFilter { table, filter } => !table.contains(';') && !filter.contains(
                ';',
            ),
            DbPathView::TableColumnsFilter { table, columns, filter } => !table.contains(';')
                && !columns.contains(';') && !filter.contains(';'),
            _ => true,
        },
{
    let parts = segments(p);
    if parts.len() > 0 {
        lemma_escape_has_no_semicolon(parts[0]);
    }
    if parts.len() > 1 {
        lemma_escape_has_no_semicolon(parts[1]);
        lemma_filter_has_no_semicolon(parts[1]);
    }
    if parts.len() > 2 {
        lemma_filter_has_no_semicolon(parts[2]);
    }
}

/// A path with two segments is routed to exactly one of: a column list, a
/// filter, or an error; the second segment decides which.
pub proof fn lemma_two_segments_routed(p: Seq<char>)
    requires
        p.len() > 0,
        p[0] == '/',
        segments(p).len() == 2,
    ensures
        !(select_spec(segments(p)[1]) && filter_spec(segments(p)[1])),
        translate(p) is TableColumns <==> select_spec(segments(p)[1]),
        translate(p) is TableFilter <==> filter_spec(segments(p)[1]),
        translate(p) is Error <==> !select_spec(segments(p)[1]) && !filter_spec(segments(p)[1]),
        translate(p) is TableColumns || translate(p) is TableFilter || translate(p) is Error,
{
}

/// A path with three segments is accepted only with the columns before the
/// filter; the reverse order is reported as an ordering error.
pub proof fn lemma_three_segments_fixed_order(p: Seq<char>)
    requires
        p.len() > 0,
        p[0] == '/',
        segments(p).len() == 3,
    ensures
        translate(p) is TableColumnsFilter <==> select_spec(segments(p)[1]) && filter_spec(
            segments(p)[2],
        ),
        filter_spec(segments(p)[1]) && select_spec(segments(p)[2]) ==> translate(p)
            == DbPathView::Error(MSG_BAD_ORDER@),
        !(translate(p) is TableColumnsFilter) ==> translate(p) is Error,
{
}

/// Translating is a function of the path alone: the same path always yields the
/// same descriptor, the same escaped names and the same rendered filter.
pub proof fn lemma_translate_deterministic(p: Seq<char>, q: Seq<char>)
    requires
        p == q,
    ensures
        translate(p) == translate(q),
        escape_spec(p) == escape_spec(q),
        render_filter(p) == render_filter(q),
{
}

/// The four error messages differ from one another.
pub proof fn lemma_error_messages_distinct()
    ensures
        MSG_BAD_START@ != MSG_TOO_MANY_PARTS@,
        MSG_BAD_START@ != MSG_BAD_SPEC@,
        MSG_BAD_START@ != MSG_BAD_ORDER@,
        MSG_TOO_MANY_PARTS@ != MSG_BAD_SPEC@,
        MSG_TOO_MANY_PARTS@ != MSG_BAD_ORDER@,
        MSG_BAD_SPEC@ != MSG_BAD_ORDER@,
{
    reveal_strlit("path must start with /");
    reveal_strlit("at most 3 path parts allowed");
    reveal_strlit("incorrect filter or column specification");
    reveal_strlit("columns must come before the filter");
    assert(MSG_BAD_START@[0] != MSG_TOO_MANY_PARTS@[0]);
    assert(MSG_BAD_START@[0] != MSG_BAD_SPEC@[0]);
    assert(MSG_BAD_START@[0] != MSG_BAD_ORDER@[0]);
    assert(MSG_TOO_MANY_PARTS@[0] != MSG_BAD_SPEC@[0]);
    assert(MSG_TOO_MANY_PARTS@[0] != MSG_BAD_ORDER@[0]);
    assert(MSG_BAD_SPEC@[0] != MSG_BAD_ORDER@[0]);
}

/// Every segment of a path is non-empty and holds no `/`.
pub proof fn lemma_segments_well_formed(p: Seq<char>)
    ensures
        forall|i: int|
            0 <= i < segments(p).len() ==> segments(p)[i].len() > 0 && !segments(p)[i].contains(
                '/',
            ),
{
    lemma_segments_from_well_formed(p, seq![]);
}

proof fn lemma_segments_from_well_formed(rest: Seq<char>, cur: Seq<char>)
    requires
        !cur.contains('/'),
    ensures
        forall|i: int|
            0 <= i < segments_from(rest, cur).len() ==> segments_from(rest, cur)[i].len() > 0
                && !segments_from(rest, cur)[i].contains('/'),
    decreases rest.len(),
{
    if rest.len() == 0 {
        assert forall|i: int| 0 <= i < close_segment(cur).len() implies close_segment(cur)[i]
            == cur by {}
        assert(segments_from(rest, cur) == close_segment(cur));
    } else if rest[0] == '/' {
        lemma_segments_from_well_formed(rest.skip(1), seq![]);
        let head = close_segment(cur);
        let tail = segments_from(rest.skip(1), seq![]);
        assert(segments_from(rest, cur) == head + tail);
        assert forall|i: int| 0 <= i < (head + tail).len() implies (head + tail)[i].len() > 0
            && !(head + tail)[i].contains('/') by {
            if i < head.len() {
                assert((head + tail)[i] == cur);
            } else {
                assert((head + tail)[i] == tail[i - head.len()]);
            }
        }
    } else {
        assert(!seq![rest[0]].contains('/')) by {
            assert(seq![rest[0]][0] == rest[0]);
        }
        lemma_concat_lacks(cur, seq![rest[0]], '/');
        assert(cur.push(rest[0]) =~= cur + seq![rest[0]]);
        lemma_segments_from_well_formed(rest.skip(1), cur.push(rest[0]));
        assert(segments_from(rest, cur) == segments_from(rest.skip(1), cur.push(rest[0])));
    }
}

} // verus!

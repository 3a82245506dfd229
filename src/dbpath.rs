use vstd::prelude::*;

use crate::text::{
    chars_of, contains_sub, has_sub, replace_all, replace_chars, string_of,
};

verus! {

/// Message for a path that does not begin with `/`.
pub const MSG_BAD_START: &'static str = "path must start with /";

/// Message for a path with more than three segments.
pub const MSG_TOO_MANY_PARTS: &'static str = "at most 3 path parts allowed";

/// Message for a segment that is neither a column list nor a filter.
pub const MSG_BAD_SPEC: &'static str = "incorrect filter or column specification";

/// Message for a three-segment path that gives the filter before the columns.
pub const MSG_BAD_ORDER: &'static str = "columns must come before the filter";

/// The grammar of a path, for command-line help.
pub const DB_PATH_HELP: &'static str = "path := ['\"']'/'[table['/'columns]['/'filter]]['\"']\n\n\
    table := <text>\n\n\
    columns := [column][['=']value][','columns]\n\
    column := <text>\n\
    value := ['\'']<text>['\'']\n\n\
    filter := column comparator value [operator filter]\n\
    comparator := '==' | '!=' | '<=' | '>=' | '<' | '>'\n\
    operator := '&' | '|'";

/// What a path asks for: a table, the columns to show and the rows to keep.
#[derive(Debug, PartialEq, Eq)]
pub enum DbPath {
    /// No table: the whole database.
    Root,
    /// One table, all of its columns and rows.
    Table(String),
    /// Some columns of a table.
    TableColumns { table: String, columns: String },
    /// The rows of a table that meet a condition.
    TableFilter { table: String, filter: String },
    /// Some columns of the rows that meet a condition.
    TableColumnsFilter { table: String, columns: String, filter: String },
    /// A path that could not be translated, with the reason.
    Error(String),
}

/// The mathematical value of a `DbPath`: the same shapes, over character sequences.
pub enum DbPathView {
    Root,
    Table(Seq<char>),
    TableColumns { table: Seq<char>, columns: Seq<char> },
    TableFilter { table: Seq<char>, filter: Seq<char> },
    TableColumnsFilter { table: Seq<char>, columns: Seq<char>, filter: Seq<char> },
    Error(Seq<char>),
}

impl View for DbPath {
    type V = DbPathView;

    open spec fn view(&self) -> DbPathView {
        match self {
            DbPath::Root => DbPathView::Root,
            DbPath::Table(t) => DbPathView::Table(t@),
            DbPath::TableColumns { table, columns } => DbPathView::TableColumns {
                table: table@,
                columns: columns@,
            },
            DbPath::TableFilter { table, filter } => DbPathView::TableFilter {
                table: table@,
                filter: filter@,
            },
            DbPath::TableColumnsFilter { table, columns, filter } =>
                DbPathView::TableColumnsFilter { table: table@, columns: columns@, filter: filter@ },
            DbPath::Error(m) => DbPathView::Error(m@),
        }
    }
}

/// The segment under construction, as a list of zero or one segments.
pub open spec fn close_segment(cur: Seq<char>) -> Seq<Seq<char>> {
    if cur.len() > 0 {
        seq![cur]
    } else {
        seq![]
    }
}

/// The non-empty `/`-separated segments of `rest`, the first of them continuing `cur`.
pub open spec fn segments_from(rest: Seq<char>, cur: Seq<char>) -> Seq<Seq<char>>
    decreases rest.len(),
{
    if rest.len() == 0 {
        close_segment(cur)
    } else if rest[0] == '/' {
        close_segment(cur) + segments_from(rest.skip(1), seq![])
    } else {
        segments_from(rest.skip(1), cur.push(rest[0]))
    }
}

/// The non-empty `/`-separated segments of a path, in order.
pub open spec fn segments(p: Seq<char>) -> Seq<Seq<char>> {
    segments_from(p, seq![])
}

/// A filter segment holds the comparator `==`.
pub open spec fn filter_spec(s: Seq<char>) -> bool {
    has_sub(s, seq!['=', '='])
}

/// A column list holds a comma and no `==`.
pub open spec fn select_spec(s: Seq<char>) -> bool {
    has_sub(s, seq![',']) && !has_sub(s, seq!['=', '='])
}

/// A table name or column list made safe: `'` doubled, `"` escaped by a
/// backslash, `;` removed, in that order.
pub open spec fn escape_spec(s: Seq<char>) -> Seq<char> {
    let quoted = replace_all(s, seq!['\''], seq!['\'', '\'']);
    let dquoted = replace_all(quoted, seq!['"'], seq!['\\', '"']);
    replace_all(dquoted, seq![';'], seq![])
}

/// A filter rendered as SQL: `;` removed first, then `==` to `=`, `!=` to `<>`,
/// `&` to ` AND ` and `|` to ` OR `, each over the whole text, in that order.
pub open spec fn render_filter(s: Seq<char>) -> Seq<char> {
    let stripped = replace_all(s, seq![';'], seq![]);
    let eq = replace_all(stripped, seq!['=', '='], seq!['=']);
    let ne = replace_all(eq, seq!['!', '='], seq!['<', '>']);
    let and = replace_all(ne, seq!['&'], seq![' ', 'A', 'N', 'D', ' ']);
    replace_all(and, seq!['|'], seq![' ', 'O', 'R', ' '])
}

/// The descriptor that a path stands for. Columns must come before the filter.
pub open spec fn translate(p: Seq<char>) -> DbPathView {
    let parts = segments(p);
    if p.len() == 0 || p[0] != '/' {
        DbPathView::Error(MSG_BAD_START@)
    } else if parts.len() == 0 {
        DbPathView::Root
    } else if parts.len() == 1 {
        DbPathView::Table(escape_spec(parts[0]))
    } else if parts.len() == 2 {
        if select_spec(parts[1]) {
            DbPathView::TableColumns { table: escape_spec(parts[0]), columns: escape_spec(parts[1]) }
        } else if filter_spec(parts[1]) {
            DbPathView::TableFilter { table: escape_spec(parts[0]), filter: render_filter(parts[1]) }
        } else {
            DbPathView::Error(MSG_BAD_SPEC@)
        }
    } else if parts.len() == 3 {
        if select_spec(parts[1]) && filter_spec(parts[2]) {
            DbPathView::TableColumnsFilter {
                table: escape_spec(parts[0]),
                columns: escape_spec(parts[1]),
                filter: render_filter(parts[2]),
            }
        } else if filter_spec(parts[1]) && select_spec(parts[2]) {
            DbPathView::Error(MSG_BAD_ORDER@)
        } else {
            DbPathView::Error(MSG_BAD_SPEC@)
        }
    } else {
        DbPathView::Error(MSG_TOO_MANY_PARTS@)
    }
}


/// The views of a list of strings.
pub open spec fn views_of(v: Seq<String>) -> Seq<Seq<char>> {
    v.map_values(|x: String| x@)
}

/// Splits a path at each `/` and keeps the non-empty segments, in order.
pub fn split_segments(path: &str) -> (r: Vec<String>)
    ensures
        views_of(r@) == segments(path@),
{
    let chars = chars_of(path);
    let mut parts: Vec<String> = Vec::new();
    let mut cur: Vec<char> = Vec::new();
    let mut i: usize = 0;
    assert(chars@.skip(0) =~= chars@);
    assert(views_of(parts@) =~= Seq::<Seq<char>>::empty());
    while i < chars.len()
        invariant
            i <= chars.len(),
            chars@ == path@,
            views_of(parts@) + segments_from(chars@.skip(i as int), cur@) == segments(path@),
        decreases chars.len() - i,
    {
        let ghost rest = chars@.skip(i as int);
        let ghost before = views_of(parts@);
        assert(rest[0] == chars@[i as int]);
        assert(rest.skip(1) =~= chars@.skip(i + 1));
        let ghost old_cur = cur@;
        if chars[i] == '/' {
            if cur.len() > 0 {
                let seg = string_of(&cur);
                parts.push(seg);
                assert(views_of(parts@) =~= before + seq![old_cur]);
            } else {
                assert(views_of(parts@) =~= before + Seq::<Seq<char>>::empty());
            }
            assert(views_of(parts@) == before + close_segment(old_cur));
            cur = Vec::new();
            assert(cur@ =~= Seq::<char>::empty());
            assert(views_of(parts@) + segments_from(rest.skip(1), seq![]) =~= before + (
            close_segment(old_cur) + segments_from(rest.skip(1), seq![])));
        } else {
            cur.push(chars[i]);
        }
        i = i + 1;
    }
    let ghost before = views_of(parts@);
    assert(chars@.skip(i as int) =~= Seq::<char>::empty());
    if cur.len() > 0 {
        let seg = string_of(&cur);
        parts.push(seg);
        assert(views_of(parts@) =~= before + seq![cur@]);
    } else {
        assert(views_of(parts@) =~= before + Seq::<Seq<char>>::empty());
    }
    parts
}


/// Whether a segment is a filter: it holds `==`.
pub fn is_filter(s: &str) -> (r: bool)
    ensures
        r == filter_spec(s@),
{
    let chars = chars_of(s);
    let eq: Vec<char> = vec!['=', '='];
    assert(eq@ =~= seq!['=', '=']);
    contains_sub(&chars, &eq)
}

/// Whether a segment is a column list: it holds a comma and no `==`.
pub fn is_select(s: &str) -> (r: bool)
    ensures
        r == select_spec(s@),
{
    let chars = chars_of(s);
    let comma: Vec<char> = vec![','];
    assert(comma@ =~= seq![',']);
    contains_sub(&chars, &comma) && !is_filter(s)
}

/// Makes a table name or column list safe to place in SQL text.
pub fn escape(s: &str) -> (r: String)
    ensures
        r@ == escape_spec(s@),
{
    let chars = chars_of(s);
    let quote: Vec<char> = vec!['\''];
    let two_quotes: Vec<char> = vec!['\'', '\''];
    let dquote: Vec<char> = vec!['"'];
    let escaped_dquote: Vec<char> = vec!['\\', '"'];
    let semicolon: Vec<char> = vec![';'];
    let nothing: Vec<char> = Vec::new();
    assert(quote@ =~= seq!['\'']);
    assert(two_quotes@ =~= seq!['\'', '\'']);
    assert(dquote@ =~= seq!['"']);
    assert(escaped_dquote@ =~= seq!['\\', '"']);
    assert(semicolon@ =~= seq![';']);
    assert(nothing@ =~= Seq::<char>::empty());
    let quoted = replace_chars(&chars, &quote, &two_quotes);
    let dquoted = replace_chars(&quoted, &dquote, &escaped_dquote);
    let stripped = replace_chars(&dquoted, &semicolon, &nothing);
    string_of(&stripped)
}

/// Renders a filter segment as an SQL condition.
pub fn parse_filter(filter: &str) -> (r: String)
    ensures
        r@ == render_filter(filter@),
{
    let chars = chars_of(filter);
    let semicolon: Vec<char> = vec![';'];
    let nothing: Vec<char> = Vec::new();
    let eq2: Vec<char> = vec!['=', '='];
    let eq: Vec<char> = vec!['='];
    let bang_eq: Vec<char> = vec!['!', '='];
    let not_eq: Vec<char> = vec!['<', '>'];
    let amp: Vec<char> = vec!['&'];
    let and: Vec<char> = vec![' ', 'A', 'N', 'D', ' '];
    let bar: Vec<char> = vec!['|'];
    let or: Vec<char> = vec![' ', 'O', 'R', ' '];
    assert(semicolon@ =~= seq![';']);
    assert(nothing@ =~= Seq::<char>::empty());
    assert(eq2@ =~= seq!['=', '=']);
    assert(eq@ =~= seq!['=']);
    assert(bang_eq@ =~= seq!['!', '=']);
    assert(not_eq@ =~= seq!['<', '>']);
    assert(amp@ =~= seq!['&']);
    assert(and@ =~= seq![' ', 'A', 'N', 'D', ' ']);
    assert(bar@ =~= seq!['|']);
    assert(or@ =~= seq![' ', 'O', 'R', ' ']);
    let stripped = replace_chars(&chars, &semicolon, &nothing);
    let with_eq = replace_chars(&stripped, &eq2, &eq);
    let with_ne = replace_chars(&with_eq, &bang_eq, &not_eq);
    let with_and = replace_chars(&with_ne, &amp, &and);
    let with_or = replace_chars(&with_and, &bar, &or);
    string_of(&with_or)
}

/// The grammar of a path, for command-line help.
pub fn db_path_help<'a>() -> (r: &'a str)
    ensures
        r@ == DB_PATH_HELP@,
{
    DB_PATH_HELP
}

/// Translates a path into the descriptor it stands for; failures come back as
/// `DbPath::Error` with a message that names the fault.
pub fn parse_db_path(path: &str) -> (r: DbPath)
    ensures
        r@ == translate(path@),
{
    let chars = chars_of(path);
    if chars.len() == 0 || chars[0] != '/' {
        return DbPath::Error(MSG_BAD_START.to_owned());
    }
    let parts = split_segments(path);
    let ghost segs = segments(path@);
    assert(parts@.len() == segs.len());
    if parts.len() == 0 {
        DbPath::Root
    } else if parts.len() == 1 {
        assert(parts@[0]@ == segs[0]);
        DbPath::Table(escape(parts[0].as_str()))
    } else if parts.len() == 2 {
        assert(parts@[0]@ == segs[0]);
        assert(parts@[1]@ == segs[1]);
        if is_select(parts[1].as_str()) {
            DbPath::TableColumns {
                table: escape(parts[0].as_str()),
                columns: escape(parts[1].as_str()),
            }
        } else if is_filter(parts[1].as_str()) {
            DbPath::TableFilter {
                table: escape(parts[0].as_str()),
                filter: parse_filter(parts[1].as_str()),
            }
        } else {
            DbPath::Error(MSG_BAD_SPEC.to_owned())
        }
    } else if parts.len() == 3 {
        assert(parts@[0]@ == segs[0]);
        assert(parts@[1]@ == segs[1]);
        assert(parts@[2]@ == segs[2]);
        if is_select(parts[1].as_str()) && is_filter(parts[2].as_str()) {
            DbPath::TableColumnsFilter {
                table: escape(parts[0].as_str()),
                columns: escape(parts[1].as_str()),
                filter: parse_filter(parts[2].as_str()),
            }
        } else if is_filter(parts[1].as_str()) && is_select(parts[2].as_str()) {
            DbPath::Error(MSG_BAD_ORDER.to_owned())
        } else {
            DbPath::Error(MSG_BAD_SPEC.to_owned())
        }
    } else {
        DbPath::Error(MSG_TOO_MANY_PARTS.to_owned())
    }
}

} // verus!

use sqlcmdlutils::dbpath::{
    db_path_help, escape, is_filter, is_select, parse_db_path, parse_filter, split_segments,
    DbPath, MSG_BAD_ORDER, MSG_BAD_SPEC, MSG_BAD_START, MSG_TOO_MANY_PARTS,
};

fn error(msg: &str) -> DbPath {
    DbPath::Error(msg.to_string())
}

#[test]
fn empty_path_is_rejected() {
    assert_eq!(parse_db_path(""), error(MSG_BAD_START));
}

#[test]
fn path_without_leading_slash_is_rejected() {
    assert_eq!(parse_db_path("users"), error(MSG_BAD_START));
    assert_eq!(parse_db_path(" /users"), error(MSG_BAD_START));
}

#[test]
fn slash_alone_is_root() {
    assert_eq!(parse_db_path("/"), DbPath::Root);
    assert_eq!(parse_db_path("///"), DbPath::Root);
}

#[test]
fn one_segment_is_table() {
    assert_eq!(parse_db_path("/users"), DbPath::Table("users".to_string()));
}

#[test]
fn empty_segments_are_dropped() {
    assert_eq!(parse_db_path("//users//"), DbPath::Table("users".to_string()));
    assert_eq!(
        split_segments("//a///b/c/"),
        vec!["a".to_string(), "b".to_string(), "c".to_string()]
    );
    assert!(split_segments("/").is_empty());
}

#[test]
fn two_segments_with_columns() {
    assert_eq!(
        parse_db_path("/users/id,name"),
        DbPath::TableColumns { table: "users".to_string(), columns: "id,name".to_string() }
    );
}

#[test]
fn two_segments_with_filter() {
    assert_eq!(
        parse_db_path("/users/id==5"),
        DbPath::TableFilter { table: "users".to_string(), filter: "id=5".to_string() }
    );
}

#[test]
fn filter_connectors_render_as_sql() {
    assert_eq!(
        parse_db_path("/users/id==5&active==1"),
        DbPath::TableFilter {
            table: "users".to_string(),
            filter: "id=5 AND active=1".to_string()
        }
    );
    assert_eq!(
        parse_db_path("/users/id==5|id!=7"),
        DbPath::TableFilter { table: "users".to_string(), filter: "id=5 OR id<>7".to_string() }
    );
}

#[test]
fn four_segments_are_too_many() {
    assert_eq!(parse_db_path("/a/b/c/d"), error(MSG_TOO_MANY_PARTS));
}

#[test]
fn columns_before_filter_is_accepted() {
    assert_eq!(
        parse_db_path("/users/id,name/id==5"),
        DbPath::TableColumnsFilter {
            table: "users".to_string(),
            columns: "id,name".to_string(),
            filter: "id=5".to_string()
        }
    );
}

#[test]
fn filter_before_columns_is_rejected() {
    assert_eq!(parse_db_path("/users/id==5/id,name"), error(MSG_BAD_ORDER));
}

#[test]
fn unclassifiable_segment_is_rejected() {
    assert_eq!(parse_db_path("/users/id"), error(MSG_BAD_SPEC));
    assert_eq!(parse_db_path("/users/id=5"), error(MSG_BAD_SPEC));
    assert_eq!(parse_db_path("/users/id,name/id"), error(MSG_BAD_SPEC));
    assert_eq!(parse_db_path("/users/id==1/id==2"), error(MSG_BAD_SPEC));
}

#[test]
fn comma_with_double_equals_is_a_filter() {
    assert!(is_filter("a,b==c"));
    assert!(!is_select("a,b==c"));
    assert_eq!(
        parse_db_path("/t/a,b==c"),
        DbPath::TableFilter { table: "t".to_string(), filter: "a,b=c".to_string() }
    );
}

#[test]
fn classifiers_on_plain_segments() {
    assert!(is_select("id,name"));
    assert!(!is_filter("id,name"));
    assert!(is_filter("id==5"));
    assert!(!is_select("id"));
    assert!(!is_filter("id"));
    assert!(!is_filter("id=5"));
}

#[test]
fn every_two_segment_path_is_routed_once() {
    for seg in ["a,b", "a==b", "a", "a,b==c", "=", ",", "a;b"] {
        let path = format!("/t/{}", seg);
        let routed = match parse_db_path(&path) {
            DbPath::TableColumns { .. } => is_select(seg) && !is_filter(seg),
            DbPath::TableFilter { .. } => is_filter(seg) && !is_select(seg),
            DbPath::Error(msg) => msg == MSG_BAD_SPEC && !is_filter(seg) && !is_select(seg),
            _ => false,
        };
        assert!(routed, "{}", path);
    }
}

#[test]
fn escape_quotes_and_semicolons() {
    assert_eq!(escape("o'brien"), "o''brien");
    assert_eq!(escape("a\"b"), "a\\\"b");
    assert_eq!(escape("users;drop"), "usersdrop");
    assert_eq!(escape("plain"), "plain");
    assert_eq!(escape(""), "");
}

#[test]
fn filter_comparators_are_translated() {
    assert_eq!(parse_filter("a==1"), "a=1");
    assert_eq!(parse_filter("a!=1"), "a<>1");
    assert_eq!(parse_filter("a<=1&b>=2|c<3&d>4"), "a<=1 AND b>=2 OR c<3 AND d>4");
    assert_eq!(parse_filter("a===b"), "a==b");
}

#[test]
fn semicolon_is_stripped_before_substitution() {
    assert_eq!(parse_filter("x;==y"), "x=y");
    assert_eq!(parse_filter("a==1;drop table t"), "a=1drop table t");
}

#[test]
fn semicolons_never_reach_the_descriptor() {
    match parse_db_path("/us;ers/id,na;me/id==5;&b==;1") {
        DbPath::TableColumnsFilter { table, columns, filter } => {
            assert_eq!(table, "users");
            assert_eq!(columns, "id,name");
            assert_eq!(filter, "id=5 AND b=1");
            assert!(!table.contains(';') && !columns.contains(';') && !filter.contains(';'));
        }
        other => panic!("unexpected {:?}", other),
    }
}

#[test]
fn names_are_escaped_in_descriptor() {
    assert_eq!(
        parse_db_path("/o'k/a\"b,c"),
        DbPath::TableColumns { table: "o''k".to_string(), columns: "a\\\"b,c".to_string() }
    );
}

#[test]
fn translating_twice_gives_the_same_text() {
    let path = "/users/id,name/id==5&x!=2";
    assert_eq!(parse_db_path(path), parse_db_path(path));
    assert_eq!(parse_filter("id==5|x!=2"), parse_filter("id==5|x!=2"));
    assert_eq!(escape("a'b;"), escape("a'b;"));
}

#[test]
fn error_messages_are_distinct() {
    let msgs = [MSG_BAD_START, MSG_TOO_MANY_PARTS, MSG_BAD_SPEC, MSG_BAD_ORDER];
    for i in 0..msgs.len() {
        for j in 0..msgs.len() {
            if i != j {
                assert_ne!(msgs[i], msgs[j]);
            }
        }
    }
}

#[test]
fn help_names_the_grammar() {
    let help = db_path_help();
    assert!(help.starts_with("path := "));
    assert!(help.contains("comparator := '==' | '!=' | '<=' | '>=' | '<' | '>'"));
    assert!(help.contains("operator := '&' | '|'"));
}

use bookshelf::database::{Book, DatabaseService, User};
use bookshelf::database::{ALL_BOOKS, FETCH_SIZE, RECOMMEND};
use bookshelf::row::{Row, Value};
use neo4rs::Error;

fn text(value: &str) -> Value {
    Value::Text(value.to_string())
}

fn row(columns: Vec<(&str, Value)>) -> Row {
    let mut row = Row::new();
    for (name, value) in columns {
        row.put(name, value);
    }
    row
}

fn book_row(prefix: &str, id: &str, title: &str) -> Row {
    row(vec![
        (&format!("{}.id", prefix), text(id)),
        (&format!("{}.title", prefix), text(title)),
        (&format!("{}.author", prefix), text("someone")),
        (&format!("{}.genre", prefix), text("novel")),
        (&format!("{}.cover", prefix), text("cover.png")),
    ])
}

fn ids(books: &Vec<Book>) -> Vec<String> {
    books.iter().map(|b| b.id().clone()).collect()
}

#[test]
fn a_full_row_gives_every_field() {
    let r = row(vec![
        ("b.id", text("b1")),
        ("b.title", text("Dune")),
        ("b.author", text("Frank Herbert")),
        ("b.genre", text("sf")),
        ("b.cover", text("dune.png")),
    ]);
    let b = Book::from_row(&r);
    assert_eq!(b.id(), "b1");
    assert_eq!(b.title(), "Dune");
    assert_eq!(b.author(), "Frank Herbert");
    assert_eq!(b.genre(), "sf");
    assert_eq!(b.cover(), "dune.png");
}

#[test]
fn a_missing_cover_is_empty() {
    let r = row(vec![
        ("b.id", text("b1")),
        ("b.title", text("Dune")),
        ("b.author", text("Frank Herbert")),
        ("b.genre", text("sf")),
    ]);
    let b = Book::from_row(&r);
    assert_eq!(b.id(), "b1");
    assert_eq!(b.title(), "Dune");
    assert_eq!(b.cover(), "");
}

#[test]
fn a_null_or_mistyped_field_is_empty() {
    let r = row(vec![
        ("b.id", text("b1")),
        ("b.title", Value::Null),
        ("b.author", Value::Integer(12i64)),
        ("b.genre", Value::Other),
        ("b.cover", text("c")),
    ]);
    let b = Book::from_row(&r);
    assert_eq!(b.id(), "b1");
    assert_eq!(b.title(), "");
    assert_eq!(b.author(), "");
    assert_eq!(b.genre(), "");
    assert_eq!(b.cover(), "c");
}

#[test]
fn an_empty_row_gives_an_empty_book() {
    let b = Book::from_row(&row(vec![]));
    assert_eq!(b.id(), "");
    assert_eq!(b.title(), "");
    assert_eq!(b.author(), "");
    assert_eq!(b.genre(), "");
    assert_eq!(b.cover(), "");
}

#[test]
fn recommended_books_are_read_from_their_own_columns() {
    let b = Book::from_recommendation(&book_row("rec", "r1", "Emma"));
    assert_eq!(b.id(), "r1");
    assert_eq!(b.title(), "Emma");
    let none = Book::from_recommendation(&book_row("b", "r1", "Emma"));
    assert_eq!(none.id(), "");
    let other = Book::from_row(&book_row("rec", "r1", "Emma"));
    assert_eq!(other.title(), "");
}

#[test]
fn a_reader_is_read_from_a_row() {
    let u = User::from_row(&row(vec![
        ("u.id", Value::Integer(42i64)),
        ("u.name", text("Ann")),
    ]));
    assert_eq!(u.id(), 42);
    assert_eq!(u.name(), "Ann");
}

#[test]
fn a_reader_without_key_or_name_gets_zero_and_empty() {
    let u = User::from_row(&row(vec![("u.name", Value::Null)]));
    assert_eq!(u.id(), 0);
    assert_eq!(u.name(), "");
    let big = User::from_row(&row(vec![
        ("u.id", Value::Integer(1i64 << 40)),
        ("u.name", text("Big")),
    ]));
    assert_eq!(big.id(), 0);
    assert_eq!(big.name(), "Big");
    let text = User::from_row(&row(vec![("u.id", text("7"))]));
    assert_eq!(text.id(), 0);
}

#[test]
fn all_books_come_in_row_order() {
    let rows = vec![book_row("b", "b1", "one"), book_row("b", "b2", "two")];
    let books = DatabaseService::get_all_books(Ok(rows));
    assert_eq!(ids(&books), vec!["b1".to_string(), "b2".to_string()]);
    assert_eq!(books[1].title(), "two");
    assert!(DatabaseService::get_all_books(Ok(vec![])).is_empty());
}

#[test]
fn reads_fail_open() {
    assert!(DatabaseService::get_all_books(Err(Error::ConnectionError)).is_empty());
    assert!(DatabaseService::get_user_books(Err(Error::ConnectionError)).is_empty());
    assert!(DatabaseService::recommend_books(Err(Error::ConnectionError)).is_empty());
    assert!(DatabaseService::get_all_users(Err(Error::ConnectionError)).is_empty());
    assert!(DatabaseService::get_book(Err(Error::ConnectionError)).is_none());
    assert!(DatabaseService::get_user(Err(Error::ConnectionError)).is_none());
    assert!(DatabaseService::add_book(Err(Error::ConnectionError)).is_none());
    assert!(DatabaseService::add_user(Err(Error::ConnectionError)).is_none());
}

#[test]
fn the_first_row_is_the_book_found() {
    let rows = vec![book_row("b", "b1", "first"), book_row("b", "b1", "second")];
    let found = DatabaseService::get_book(Ok(rows)).unwrap();
    assert_eq!(found.title(), "first");
    assert!(DatabaseService::get_book(Ok(vec![])).is_none());
}

#[test]
fn the_first_row_is_the_reader_found() {
    let rows = vec![
        row(vec![("u.id", Value::Integer(3i64)), ("u.name", text("Cy"))]),
        row(vec![("u.id", Value::Integer(3i64)), ("u.name", text("Di"))]),
    ];
    let found = DatabaseService::get_user(Ok(rows)).unwrap();
    assert_eq!(found.id(), 3);
    assert_eq!(found.name(), "Cy");
    assert!(DatabaseService::get_user(Ok(vec![])).is_none());
}

#[test]
fn all_readers_come_in_row_order() {
    let rows = vec![
        row(vec![("u.id", Value::Integer(1i64)), ("u.name", text("Ann"))]),
        row(vec![("u.id", Value::Integer(2i64))]),
    ];
    let users = DatabaseService::get_all_users(Ok(rows));
    assert_eq!(users.len(), 2);
    assert_eq!((users[0].id(), users[0].name().as_str()), (1, "Ann"));
    assert_eq!((users[1].id(), users[1].name().as_str()), (2, ""));
}

#[test]
fn a_created_node_reports_the_stores_identifier() {
    let rows = vec![row(vec![("id", text("4:abc:17"))])];
    assert_eq!(DatabaseService::add_book(Ok(rows)), Some("4:abc:17".to_string()));
    let rows = vec![row(vec![("id", text("4:abc:18"))])];
    assert_eq!(DatabaseService::add_user(Ok(rows)), Some("4:abc:18".to_string()));
    assert_eq!(DatabaseService::add_book(Ok(vec![])), None);
    let unreadable = vec![row(vec![("id", Value::Integer(17i64))])];
    assert_eq!(DatabaseService::add_book(Ok(unreadable)), None);
    let missing = vec![row(vec![("other", text("x"))])];
    assert_eq!(DatabaseService::add_user(Ok(missing)), None);
}

#[test]
fn recommendations_stop_at_five_rows() {
    let mut rows = Vec::new();
    for i in 0..7 {
        rows.push(book_row("rec", &format!("r{}", i), "t"));
    }
    let books = DatabaseService::recommend_books(Ok(rows));
    assert_eq!(
        ids(&books),
        vec!["r0".to_string(), "r1".to_string(), "r2".to_string(), "r3".to_string(), "r4".to_string()]
    );
    let two = vec![book_row("rec", "a", "t"), book_row("rec", "b", "t")];
    assert_eq!(ids(&DatabaseService::recommend_books(Ok(two))), vec!["a".to_string(), "b".to_string()]);
}

#[test]
fn the_books_of_a_reader_come_in_row_order() {
    let rows = vec![book_row("b", "y", "Y"), book_row("b", "x", "X")];
    let books = DatabaseService::get_user_books(Ok(rows));
    assert_eq!(ids(&books), vec!["y".to_string(), "x".to_string()]);
}

#[test]
fn reading_a_stream_keeps_rows_until_it_ends_or_fails() {
    let mut rows: Vec<Row> = Vec::new();
    assert!(DatabaseService::take_row(&mut rows, Ok(Some(book_row("b", "b1", "one")))));
    assert!(DatabaseService::take_row(&mut rows, Ok(Some(book_row("b", "b2", "two")))));
    assert_eq!(rows.len(), 2);
    assert!(!DatabaseService::take_row(&mut rows, Ok(None)));
    assert_eq!(rows.len(), 2);
    assert!(!DatabaseService::take_row(&mut rows, Err(Error::ConnectionError)));
    assert_eq!(rows.len(), 2);
    assert_eq!(ids(&DatabaseService::get_all_books(Ok(rows))), vec!["b1".to_string(), "b2".to_string()]);
}

#[test]
fn writes_report_the_stores_failure_and_nothing_else() {
    assert!(DatabaseService::edit_book(Ok(())).is_ok());
    assert!(DatabaseService::edit_book(Err(Error::ConnectionError)).is_err());
    assert!(DatabaseService::delete_book(Ok(())).is_ok());
    assert!(DatabaseService::delete_book(Err(Error::ConnectionError)).is_err());
    assert!(DatabaseService::edit_user(Ok(())).is_ok());
    assert!(DatabaseService::edit_user(Err(Error::ConnectionError)).is_err());
    assert!(DatabaseService::delete_user(Ok(())).is_ok());
    assert!(DatabaseService::delete_user(Err(Error::ConnectionError)).is_err());
    assert!(DatabaseService::add_book_to_user(Ok(())).is_ok());
    assert!(DatabaseService::add_book_to_user(Err(Error::ConnectionError)).is_err());
    assert!(DatabaseService::remove_book_from_user(Ok(())).is_ok());
    assert!(DatabaseService::remove_book_from_user(Err(Error::ConnectionError)).is_err());
}

#[test]
fn statements_carry_their_parameters() {
    let b = Book::new(
        "b1".to_string(),
        "Dune".to_string(),
        "FH".to_string(),
        "sf".to_string(),
        "c".to_string(),
    );
    let u = User::new(1, "Ann".to_string());
    let q = DatabaseService::get_all_books_query();
    assert!(!q.has_param_key("id"));
    let q = DatabaseService::get_all_users_query();
    assert!(!q.has_param_key("id"));
    for q in [
        DatabaseService::get_book_query("b1"),
        DatabaseService::delete_book_query("b1"),
        DatabaseService::get_user_query(1),
        DatabaseService::delete_user_query(1),
        DatabaseService::get_user_books_query(1),
        DatabaseService::recommend_books_query(1),
    ] {
        assert!(q.has_param_key("id"));
        assert!(!q.has_param_key("title"));
        assert!(!q.has_param_key("user_id"));
    }
    for q in [DatabaseService::add_book_query(&b), DatabaseService::edit_book_query("b1", &b)] {
        for key in ["id", "title", "author", "genre", "cover"] {
            assert!(q.has_param_key(key));
        }
        assert!(!q.has_param_key("name"));
    }
    for q in [DatabaseService::add_user_query(&u), DatabaseService::edit_user_query(1, &u)] {
        assert!(q.has_param_key("id"));
        assert!(q.has_param_key("name"));
        assert!(!q.has_param_key("title"));
    }
    for q in [
        DatabaseService::add_book_to_user_query(1, "b1"),
        DatabaseService::remove_book_from_user_query(1, "b1"),
    ] {
        assert!(q.has_param_key("user_id"));
        assert!(q.has_param_key("book_id"));
        assert!(!q.has_param_key("id"));
    }
}

#[test]
fn the_endpoint_keeps_its_settings() {
    let s = DatabaseService::new("neo4j+s://example", "neo4j", "SECRET-REDACTED");
    assert_eq!(s.uri(), "neo4j+s://example");
    assert_eq!(s.user(), "neo4j");
    assert_eq!(s.password(), "SECRET-REDACTED");
    assert_eq!(s.fetch_size(), 500);
    assert_eq!(FETCH_SIZE, 500);
}

#[test]
fn the_statements_name_what_they_return() {
    assert_eq!(ALL_BOOKS, "MATCH (b:Book) RETURN b.id, b.title, b.author, b.genre, b.cover");
    assert!(RECOMMEND.contains("COUNT(DISTINCT similarUser) AS score"));
    assert!(RECOMMEND.ends_with("ORDER BY score DESC LIMIT 5"));
    for column in ["rec.id", "rec.title", "rec.author", "rec.genre", "rec.cover"] {
        assert!(RECOMMEND.contains(column));
    }
}

#[test]
fn a_column_holds_what_was_put_there_last() {
    let mut r = Row::new();
    assert_eq!(r.text("b.title"), None);
    assert_eq!(r.integer("u.id"), None);
    r.put("b.title", text("first"));
    r.put("u.id", Value::Integer(3));
    r.put("b.title", text("second"));
    assert_eq!(r.text("b.title"), Some("second".to_string()));
    assert_eq!(r.integer("u.id"), Some(3));
    assert_eq!(r.text("u.id"), None);
    assert_eq!(r.integer("b.title"), None);
    r.put("u.id", Value::Null);
    assert_eq!(r.integer("u.id"), None);
    assert_eq!(Book::from_row(&r).title(), "second");
}

#[test]
fn a_key_at_the_edge_of_the_range_is_kept() {
    let top = User::from_row(&row(vec![("u.id", Value::Integer(2147483647))]));
    assert_eq!(top.id(), 2147483647);
    let bottom = User::from_row(&row(vec![("u.id", Value::Integer(-2147483648))]));
    assert_eq!(bottom.id(), -2147483648);
    let over = User::from_row(&row(vec![("u.id", Value::Integer(2147483648))]));
    assert_eq!(over.id(), 0);
    let under = User::from_row(&row(vec![("u.id", Value::Integer(-2147483649))]));
    assert_eq!(under.id(), 0);
}

#[test]
fn the_statements_columns_are_named() {
    assert_eq!(
        DatabaseService::columns(),
        vec![
            "b.id", "b.title", "b.author", "b.genre", "b.cover", "u.id", "u.name", "rec.id",
            "rec.title", "rec.author", "rec.genre", "rec.cover", "id",
        ]
    );
}

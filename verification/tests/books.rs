use bookstore::convert::{
    array_to_books, document_to_book, value_first, value_to_array, value_to_i64, value_to_id,
    value_to_object, value_to_string, value_to_tags, Book, BookRequest,
};
use bookstore::db::{take_first, Response, SurrealDB};
use bookstore::error::Error;
use bookstore::ident::{check_valid_id, u64_to_dec};
use bookstore::value::{Document, Thing, Value};

fn dune_request() -> BookRequest {
    BookRequest {
        name: "Dune".to_string(),
        author: "Herbert".to_string(),
        num_pages: 412,
        tags: vec!["scifi".to_string()],
    }
}

fn sample_doc(id: &str) -> Document {
    Document {
        fields: vec![
            (
                "id".to_string(),
                Value::Thing(Thing { tb: "book".to_string(), id: id.to_string() }),
            ),
            ("name".to_string(), Value::Strand("Dune".to_string())),
            ("author".to_string(), Value::Strand("Herbert".to_string())),
            ("num_pages".to_string(), Value::Number(412)),
            ("created_at".to_string(), Value::Strand("2024-01-01 00:00:00 UTC".to_string())),
            ("tags".to_string(), Value::Array(vec![Value::Strand("scifi".to_string())])),
        ],
    }
}

fn unwrap_book(r: Result<Book, Error>) -> Book {
    match r {
        Ok(b) => b,
        Err(_) => panic!("expected a book"),
    }
}

fn unwrap_books(r: Result<Vec<Book>, Error>) -> Vec<Book> {
    match r {
        Ok(b) => b,
        Err(_) => panic!("expected books"),
    }
}

fn fresh_db() -> SurrealDB {
    match SurrealDB::init() {
        Ok(db) => db,
        Err(_) => panic!("init failed"),
    }
}

#[test]
fn scenario_create_then_list() {
    let mut db = fresh_db();
    let created = db.create_book_at(&dune_request(), "2024-01-01 00:00:00 UTC");
    assert!(created.is_ok());
    let books = unwrap_books(db.fetch_books());
    assert_eq!(books.len(), 1);
    assert_eq!(books[0].id, "book:0");
    assert_eq!(books[0].name, "Dune");
    assert_eq!(books[0].author, "Herbert");
    assert_eq!(books[0].num_pages, 412);
    assert_eq!(books[0].created_at, "2024-01-01 00:00:00 UTC");
    assert_eq!(books[0].tags, vec!["scifi".to_string()]);
}

#[test]
fn round_trip_create_then_get() {
    let mut db = fresh_db();
    assert!(db.create_book_at(&dune_request(), "2024-01-01 00:00:00 UTC").is_ok());
    let book = unwrap_book(db.get_book(&"0".to_string()));
    assert_eq!(book.id, "book:0");
    assert_eq!(book.name, "Dune");
    assert_eq!(book.author, "Herbert");
    assert_eq!(book.num_pages, 412);
    assert_eq!(book.created_at, "2024-01-01 00:00:00 UTC");
    assert_eq!(book.tags, vec!["scifi".to_string()]);
}

#[test]
fn create_book_stamps_a_creation_time() {
    let mut db = fresh_db();
    assert!(db.create_book(&dune_request()).is_ok());
    let books = unwrap_books(db.fetch_books());
    assert_eq!(books.len(), 1);
    assert!(!books[0].created_at.is_empty());
}

#[test]
fn get_missing_id_is_an_error() {
    let mut db = fresh_db();
    let r = db.get_book(&"nonexistent".to_string());
    assert!(matches!(r, Err(Error::XValueNotOfType("Object"))));
}

#[test]
fn get_invalid_reference_is_a_store_error() {
    let mut db = fresh_db();
    let r = db.get_book(&"bad id!".to_string());
    assert!(matches!(r, Err(Error::Surreal(_))));
}

#[test]
fn scenario_delete_returns_qualified_id() {
    let mut db = fresh_db();
    assert!(db.create_book_at(&dune_request(), "2024-01-01 00:00:00 UTC").is_ok());
    let r = db.delete_book("0");
    match r {
        Ok(qualified) => assert_eq!(qualified, "book:0"),
        Err(_) => panic!("delete failed"),
    }
    let books = unwrap_books(db.fetch_books());
    assert!(books.is_empty());
}

#[test]
fn delete_then_get_is_an_error() {
    let mut db = fresh_db();
    assert!(db.create_book_at(&dune_request(), "2024-01-01 00:00:00 UTC").is_ok());
    assert!(db.delete_book("0").is_ok());
    let r = db.get_book(&"0".to_string());
    assert!(matches!(r, Err(Error::XValueNotOfType("Object"))));
}

#[test]
fn delete_missing_id_still_succeeds() {
    let mut db = fresh_db();
    let r = db.delete_book("42");
    match r {
        Ok(qualified) => assert_eq!(qualified, "book:42"),
        Err(_) => panic!("delete of a missing id should succeed"),
    }
}

#[test]
fn delete_invalid_reference_is_a_store_error() {
    let mut db = fresh_db();
    let r = db.delete_book("no spaces allowed");
    assert!(matches!(r, Err(Error::Surreal(_))));
}

#[test]
fn document_to_book_converts_a_well_formed_document() {
    let book = unwrap_book(document_to_book(&sample_doc("7")));
    assert_eq!(book.id, "book:7");
    assert_eq!(book.name, "Dune");
    assert_eq!(book.author, "Herbert");
    assert_eq!(book.num_pages, 412);
    assert_eq!(book.created_at, "2024-01-01 00:00:00 UTC");
    assert_eq!(book.tags, vec!["scifi".to_string()]);
}

#[test]
fn document_to_book_rejects_num_pages_holding_a_string() {
    let mut doc = sample_doc("7");
    doc.fields[3].1 = Value::Strand("412".to_string());
    let r = document_to_book(&doc);
    assert!(matches!(r, Err(Error::XValueNotOfType("i64"))));
}

#[test]
fn document_to_book_rejects_a_missing_field() {
    let mut doc = sample_doc("7");
    doc.fields.remove(1);
    let r = document_to_book(&doc);
    assert!(matches!(r, Err(Error::XValueNotOfType("string"))));
}

#[test]
fn document_to_book_rejects_a_non_thing_id() {
    let mut doc = sample_doc("7");
    doc.fields[0].1 = Value::Strand("book:7".to_string());
    let r = document_to_book(&doc);
    assert!(matches!(r, Err(Error::XValueNotOfType("thing"))));
}

#[test]
fn document_to_book_rejects_mixed_tags() {
    let mut doc = sample_doc("7");
    doc.fields[5].1 = Value::Array(vec![
        Value::Strand("scifi".to_string()),
        Value::Number(3),
    ]);
    let r = document_to_book(&doc);
    assert!(matches!(r, Err(Error::XValueNotOfType("array of strings"))));
}

#[test]
fn array_to_books_is_all_or_nothing() {
    let good1 = Value::Object(sample_doc("1"));
    let mut bad_doc = sample_doc("2");
    bad_doc.fields[3].1 = Value::Strand("oops".to_string());
    let bad = Value::Object(bad_doc);
    let good2 = Value::Object(sample_doc("3"));
    let r = array_to_books(&vec![good1, bad, good2]);
    assert!(matches!(r, Err(Error::XValueNotOfType("i64"))));
}

#[test]
fn array_to_books_rejects_a_non_object_element() {
    let r = array_to_books(&vec![Value::Object(sample_doc("1")), Value::Number(5)]);
    assert!(matches!(r, Err(Error::XValueNotOfType("Object"))));
}

#[test]
fn array_to_books_converts_every_element() {
    let books = match array_to_books(&vec![
        Value::Object(sample_doc("1")),
        Value::Object(sample_doc("2")),
    ]) {
        Ok(bs) => bs,
        Err(_) => panic!("expected books"),
    };
    assert_eq!(books.len(), 2);
    assert_eq!(books[0].id, "book:1");
    assert_eq!(books[1].id, "book:2");
}

#[test]
fn value_extractors_check_the_tag() {
    assert!(matches!(
        value_to_string(&Value::Number(1)),
        Err(Error::XValueNotOfType("string"))
    ));
    assert!(matches!(
        value_to_i64(&Value::Strand("1".to_string())),
        Err(Error::XValueNotOfType("i64"))
    ));
    assert!(matches!(
        value_to_tags(&Value::Strand("x".to_string())),
        Err(Error::XValueNotOfType("array of strings"))
    ));
    assert!(matches!(value_to_object(Value::Null), Err(Error::XValueNotOfType("Object"))));
    assert!(matches!(value_to_array(Value::Null), Err(Error::XValueNotOfType("Array"))));
    match value_to_id(&Value::Thing(Thing { tb: "book".to_string(), id: "7".to_string() })) {
        Ok(s) => assert_eq!(s, "book:7"),
        Err(_) => panic!("expected an id"),
    }
    match value_to_string(&Value::Strand("hello".to_string())) {
        Ok(s) => assert_eq!(s, "hello"),
        Err(_) => panic!("expected a string"),
    }
    match value_to_i64(&Value::Number(-3)) {
        Ok(n) => assert_eq!(n, -3),
        Err(_) => panic!("expected a number"),
    }
}

#[test]
fn value_first_takes_the_head_of_an_array() {
    let v = Value::Array(vec![Value::Number(1), Value::Number(2)]);
    assert!(matches!(value_first(v), Value::Number(1)));
    assert!(matches!(value_first(Value::Array(vec![])), Value::Null));
    assert!(matches!(value_first(Value::Bool(true)), Value::Bool(true)));
}

#[test]
fn take_first_yields_the_first_response() {
    let responses = vec![Response { result: Ok(Value::Number(9)) }];
    let first = take_first(responses);
    assert!(matches!(first.result, Ok(Value::Number(9))));
}

#[test]
fn qualify_builds_a_book_reference() {
    match SurrealDB::qualify("abc_123") {
        Ok(t) => {
            assert_eq!(t.tb, "book");
            assert_eq!(t.id, "abc_123");
        },
        Err(_) => panic!("expected a reference"),
    }
    assert!(matches!(SurrealDB::qualify(""), Err(Error::Surreal(_))));
    assert!(matches!(SurrealDB::qualify("a b"), Err(Error::Surreal(_))));
    assert!(matches!(SurrealDB::qualify("x:y"), Err(Error::Surreal(_))));
}

#[test]
fn identifiers_render_in_decimal() {
    assert_eq!(u64_to_dec(0), "0");
    assert_eq!(u64_to_dec(7), "7");
    assert_eq!(u64_to_dec(12345), "12345");
    assert_eq!(u64_to_dec(u64::MAX), "18446744073709551615");
    assert!(check_valid_id("abc_123"));
    assert!(!check_valid_id(""));
    assert!(!check_valid_id("a b"));
}

#[test]
fn created_ids_stay_distinct() {
    let mut db = fresh_db();
    for _ in 0..12 {
        assert!(db.create_book_at(&dune_request(), "t1 UTC").is_ok());
    }
    let books = unwrap_books(db.fetch_books());
    assert_eq!(books.len(), 12);
    let mut ids: Vec<String> = books.iter().map(|b| b.id.clone()).collect();
    ids.sort();
    ids.dedup();
    assert_eq!(ids.len(), 12);
    assert!(db.delete_book("11").is_ok());
    let books = unwrap_books(db.fetch_books());
    assert_eq!(books.len(), 11);
    assert!(books.iter().all(|b| b.id != "book:11"));
}

#[test]
fn duplicate_preserves_a_document() {
    let doc = sample_doc("9");
    let copy = doc.duplicate();
    let original = unwrap_book(document_to_book(&doc));
    let duplicated = unwrap_book(document_to_book(&copy));
    assert_eq!(original.id, duplicated.id);
    assert_eq!(original.name, duplicated.name);
    assert_eq!(original.tags, duplicated.tags);
}

#[test]
fn error_messages_are_never_empty() {
    let errors = vec![
        Error::XValueNotOfType("i64"),
        Error::Surreal("boom".to_string()),
        Error::IO("disk".to_string()),
        Error::SelectStatement { value: "v".to_string() },
        Error::DeleteStatement { value: "v".to_string() },
        Error::CreateStatement { value: "v".to_string() },
        Error::UpdateStatement { value: "v".to_string() },
    ];
    for e in errors {
        assert!(!e.message().is_empty());
    }
}

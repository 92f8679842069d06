use vstd::prelude::*;

use crate::error::Error;
use crate::value::{lookup_field, value_view, Document, DocumentV, Value, ValueV};

verus! {

/// A book creation request: the fields a caller supplies. The store
/// assigns the identifier and the server supplies the timestamp.
pub struct BookRequest {
    pub name: String,
    pub author: String,
    pub num_pages: i32,
    pub tags: Vec<String>,
}

/// Mathematical image of a `BookRequest`.
pub struct BookRequestV {
    pub name: Seq<char>,
    pub author: Seq<char>,
    pub num_pages: int,
    pub tags: Seq<Seq<char>>,
}

impl View for BookRequest {
    type V = BookRequestV;

    open spec fn view(&self) -> BookRequestV {
        BookRequestV {
            name: self.name@,
            author: self.author@,
            num_pages: self.num_pages as int,
            tags: Seq::new(self.tags@.len(), |i: int| self.tags@[i]@),
        }
    }
}

/// A typed book record as read back from the store.
pub struct Book {
    pub id: String,
    pub name: String,
    pub author: String,
    pub num_pages: i64,
    pub created_at: String,
    pub tags: Vec<String>,
}

/// Mathematical image of a `Book`.
pub struct BookV {
    pub id: Seq<char>,
    pub name: Seq<char>,
    pub author: Seq<char>,
    pub num_pages: int,
    pub created_at: Seq<char>,
    pub tags: Seq<Seq<char>>,
}

impl View for Book {
    type V = BookV;

    open spec fn view(&self) -> BookV {
        BookV {
            id: self.id@,
            name: self.name@,
            author: self.author@,
            num_pages: self.num_pages as int,
            created_at: self.created_at@,
            tags: Seq::new(self.tags@.len(), |i: int| self.tags@[i]@),
        }
    }
}

/// The value a field lookup yields: the bound value, or `Null` where
/// the field is absent. An absent required field therefore fails a
/// conversion exactly as a mismatched tag does.
pub open spec fn field_or_null(d: DocumentV, name: Seq<char>) -> ValueV {
    match lookup_field(d, name) {
        Option::Some(v) => v,
        Option::None => ValueV::Null,
    }
}

/// The printed form of a record reference: `table:id`.
pub open spec fn thing_text(t: crate::value::ThingV) -> Seq<char> {
    t.tb + seq![':'] + t.id
}

/// The tag sequence a tags field must carry: an array of strings.
pub open spec fn tags_of(v: ValueV) -> Option<Seq<Seq<char>>> {
    match v {
        ValueV::Array(es) => if forall|i: int| 0 <= i < es.len() ==> es[i] is Strand {
            Option::Some(Seq::new(es.len(), |i: int| es[i]->Strand_0))
        } else {
            Option::None
        },
        _ => Option::None,
    }
}

/// What converting a raw document into a typed book yields: the book,
/// or the expected kind of the first field that is absent or carries
/// the wrong tag. Fields are checked in a fixed order: `id`, `name`,
/// `author`, `num_pages`, `created_at`, `tags`.
pub open spec fn doc_to_book_spec(d: DocumentV) -> Result<BookV, Seq<char>> {
    let idv = field_or_null(d, "id"@);
    let namev = field_or_null(d, "name"@);
    let authorv = field_or_null(d, "author"@);
    let numv = field_or_null(d, "num_pages"@);
    let createdv = field_or_null(d, "created_at"@);
    let tagsv = field_or_null(d, "tags"@);
    if !(idv is Thing) {
        Result::Err("thing"@)
    } else if !(namev is Strand) {
        Result::Err("string"@)
    } else if !(authorv is Strand) {
        Result::Err("string"@)
    } else if !(numv is Number) {
        Result::Err("i64"@)
    } else if !(createdv is Strand) {
        Result::Err("string"@)
    } else if tags_of(tagsv) is None {
        Result::Err("array of strings"@)
    } else {
        Result::Ok(
            BookV {
                id: thing_text(idv->Thing_0),
                name: namev->Strand_0,
                author: authorv->Strand_0,
                num_pages: numv->Number_0,
                created_at: createdv->Strand_0,
                tags: tags_of(tagsv)->Some_0,
            },
        )
    }
}

/// Extracts a string from a dynamic value; fails unless the value is
/// tagged as a string.
pub fn value_to_string(v: &Value) -> (r: Result<String, Error>)
    ensures
        match r {
            Result::Ok(s) => value_view(*v) == ValueV::Strand(s@),
            Result::Err(e) => !(value_view(*v) is Strand) && (e matches Error::XValueNotOfType(
                k,
            ) && k@ == "string"@),
        },
{
    match v {
        Value::Strand(s) => Result::Ok(s.clone()),
        _ => Result::Err(Error::XValueNotOfType("string")),
    }
}

/// Extracts an integer from a dynamic value; fails unless the value
/// is tagged as a number. No numeric coercion is attempted.
pub fn value_to_i64(v: &Value) -> (r: Result<i64, Error>)
    ensures
        match r {
            Result::Ok(n) => value_view(*v) == ValueV::Number(n as int),
            Result::Err(e) => !(value_view(*v) is Number) && (e matches Error::XValueNotOfType(
                k,
            ) && k@ == "i64"@),
        },
{
    match v {
        Value::Number(n) => Result::Ok(*n),
        _ => Result::Err(Error::XValueNotOfType("i64")),
    }
}

/// Extracts a record reference from a dynamic value and prints it as
/// `table:id`; fails unless the value is tagged as a reference.
pub fn value_to_id(v: &Value) -> (r: Result<String, Error>)
    ensures
        match r {
            Result::Ok(s) => value_view(*v) is Thing && s@ == thing_text(value_view(*v)->Thing_0),
            Result::Err(e) => !(value_view(*v) is Thing) && (e matches Error::XValueNotOfType(
                k,
            ) && k@ == "thing"@),
        },
{
    match v {
        Value::Thing(t) => {
            proof {
                reveal_strlit(":");
            }
            Result::Ok(t.tb.clone().concat(":").concat(t.id.as_str()))
        },
        _ => Result::Err(Error::XValueNotOfType("thing")),
    }
}

/// Extracts a sequence of strings from a dynamic value; fails unless
/// the value is an array whose every element is a string.
pub fn value_to_tags(v: &Value) -> (r: Result<Vec<String>, Error>)
    ensures
        match r {
            Result::Ok(ts) => tags_of(value_view(*v)) == Option::Some(
                Seq::new(ts@.len(), |i: int| ts@[i]@),
            ),
            Result::Err(e) => tags_of(value_view(*v)) is None && (e
                matches Error::XValueNotOfType(k) && k@ == "array of strings"@),
        },
{
    match v {
        Value::Array(es) => {
            let mut out: Vec<String> = Vec::new();
            let mut i: usize = 0;
            while i < es.len()
                invariant
                    *v == Value::Array(*es),
                    i <= es@.len(),
                    out@.len() == i,
                    forall|j: int| 0 <= j < i ==> value_view(es@[j]) is Strand,
                    forall|j: int| 0 <= j < i ==> out@[j]@ == value_view(es@[j])->Strand_0,
                decreases es@.len() - i,
            {
                match &es[i] {
                    Value::Strand(s) => {
                        out.push(s.clone());
                    },
                    _ => {
                        proof {
                            crate::value::lemma_values_view(es@);
                            assert(value_view(*v)->Array_0[i as int] == value_view(es@[i as int]));
                        }
                        return Result::Err(Error::XValueNotOfType("array of strings"));
                    },
                }
                i = i + 1;
            }
            proof {
                crate::value::lemma_values_view(es@);
                let img = value_view(*v)->Array_0;
                assert forall|j: int| 0 <= j < img.len() implies img[j] is Strand by {
                    assert(img[j] == value_view(es@[j]));
                }
                assert(Seq::new(img.len(), |j: int| img[j]->Strand_0) =~= Seq::new(
                    out@.len(),
                    |j: int| out@[j]@,
                ));
            }
            Result::Ok(out)
        },
        _ => Result::Err(Error::XValueNotOfType("array of strings")),
    }
}

/// Converts a raw document into a typed book, pulling each required
/// field by name and converting it; the first absent or mismatched
/// field fails the whole conversion, so no partial book is produced.
pub fn document_to_book(doc: &Document) -> (r: Result<Book, Error>)
    ensures
        match doc_to_book_spec(doc@) {
            Result::Ok(b) => r matches Ok(book) && book@ == b,
            Result::Err(kind) => r matches Err(e) && (e matches Error::XValueNotOfType(k) && k@
                == kind),
        },
{
    let idv = match doc.get_field("id") {
        Option::Some(v) => value_to_id(v),
        Option::None => Result::Err(Error::XValueNotOfType("thing")),
    };
    let id = match idv {
        Result::Ok(s) => s,
        Result::Err(e) => {
            return Result::Err(e);
        },
    };
    let namev = match doc.get_field("name") {
        Option::Some(v) => value_to_string(v),
        Option::None => Result::Err(Error::XValueNotOfType("string")),
    };
    let name = match namev {
        Result::Ok(s) => s,
        Result::Err(e) => {
            return Result::Err(e);
        },
    };
    let authorv = match doc.get_field("author") {
        Option::Some(v) => value_to_string(v),
        Option::None => Result::Err(Error::XValueNotOfType("string")),
    };
    let author = match authorv {
        Result::Ok(s) => s,
        Result::Err(e) => {
            return Result::Err(e);
        },
    };
    let numv = match doc.get_field("num_pages") {
        Option::Some(v) => value_to_i64(v),
        Option::None => Result::Err(Error::XValueNotOfType("i64")),
    };
    let num_pages = match numv {
        Result::Ok(n) => n,
        Result::Err(e) => {
            return Result::Err(e);
        },
    };
    let createdv = match doc.get_field("created_at") {
        Option::Some(v) => value_to_string(v),
        Option::None => Result::Err(Error::XValueNotOfType("string")),
    };
    let created_at = match createdv {
        Result::Ok(s) => s,
        Result::Err(e) => {
            return Result::Err(e);
        },
    };
    let tagsv = match doc.get_field("tags") {
        Option::Some(v) => value_to_tags(v),
        Option::None => Result::Err(Error::XValueNotOfType("array of strings")),
    };
    let tags = match tagsv {
        Result::Ok(ts) => ts,
        Result::Err(e) => {
            return Result::Err(e);
        },
    };
    Result::Ok(Book { id, name, author, num_pages, created_at, tags })
}

/// What converting a raw result array into typed books yields: every
/// element must be a document that converts; the first element that
/// is no document, or whose conversion fails, fails the whole list.
pub open spec fn books_of(s: Seq<ValueV>) -> Result<Seq<BookV>, Seq<char>>
    decreases s.len(),
{
    if s.len() == 0 {
        Result::Ok(Seq::empty())
    } else {
        let head = match s[0] {
            ValueV::Object(d) => doc_to_book_spec(d),
            _ => Result::Err("Object"@),
        };
        match head {
            Result::Ok(b) => match books_of(s.drop_first()) {
                Result::Ok(bs) => Result::Ok(seq![b] + bs),
                Result::Err(e) => Result::Err(e),
            },
            Result::Err(e) => Result::Err(e),
        }
    }
}

/// The images of a sequence of books, elementwise.
pub open spec fn book_views(s: Seq<Book>) -> Seq<BookV> {
    Seq::new(s.len(), |i: int| s[i]@)
}

/// Converts every element of a raw result array into a typed book.
/// All-or-nothing: one malformed element fails the whole conversion,
/// and no partial list is returned.
pub fn array_to_books(arr: &Vec<Value>) -> (r: Result<Vec<Book>, Error>)
    ensures
        match books_of(crate::value::values_view(arr@)) {
            Result::Ok(bs) => r matches Ok(books) && book_views(books@) == bs,
            Result::Err(kind) => r matches Err(e) && (e matches Error::XValueNotOfType(k) && k@
                == kind),
        },
{
    let ghost whole: Seq<ValueV> = crate::value::values_view(arr@);
    proof {
        crate::value::lemma_values_view(arr@);
        assert(whole.skip(0) =~= whole);
    }
    let mut out: Vec<Book> = Vec::new();
    let mut i: usize = 0;
    while i < arr.len()
        invariant
            i <= arr@.len(),
            out@.len() == i,
            whole == crate::value::values_view(arr@),
            whole.len() == arr@.len(),
            forall|j: int| 0 <= j < whole.len() ==> whole[j] == value_view(arr@[j]),
            books_of(whole) == match books_of(whole.skip(i as int)) {
                Result::<Seq<BookV>, Seq<char>>::Ok(rest) => Result::<Seq<BookV>, Seq<char>>::Ok(
                    book_views(out@) + rest,
                ),
                Result::<Seq<BookV>, Seq<char>>::Err(e) => Result::<Seq<BookV>, Seq<char>>::Err(e),
            },
        decreases arr@.len() - i,
    {
        proof {
            assert(whole.skip(i as int)[0] == whole[i as int]);
            assert(whole.skip(i as int).drop_first() =~= whole.skip(i as int + 1));
        }
        let converted = match &arr[i] {
            Value::Object(d) => document_to_book(d),
            _ => Result::Err(Error::XValueNotOfType("Object")),
        };
        match converted {
            Result::Ok(b) => {
                let ghost prior = out@;
                out.push(b);
                proof {
                    assert(book_views(out@) =~= book_views(prior).push(b@));
                    match books_of(whole.skip(i as int + 1)) {
                        Result::Ok(rest) => {
                            assert(book_views(prior) + (seq![b@] + rest) =~= book_views(out@)
                                + rest);
                        },
                        Result::Err(_) => {},
                    }
                }
            },
            Result::Err(e) => {
                return Result::Err(e);
            },
        }
        i = i + 1;
    }
    proof {
        assert(whole.skip(i as int).len() == 0);
        assert(book_views(out@) + Seq::<BookV>::empty() =~= book_views(out@));
    }
    Result::Ok(out)
}

/// The first element of a result value: the first element of an
/// array, `Null` for an empty array, and any other value unchanged.
pub open spec fn first_of(v: ValueV) -> ValueV {
    match v {
        ValueV::Array(es) => if es.len() > 0 {
            es[0]
        } else {
            ValueV::Null
        },
        _ => v,
    }
}

/// Takes the first element of a result value, as `first_of` says.
pub fn value_first(v: Value) -> (r: Value)
    ensures
        value_view(r) == first_of(value_view(v)),
{
    match v {
        Value::Array(mut es) => {
            proof {
                crate::value::lemma_values_view(es@);
            }
            if es.len() > 0 {
                es.remove(0)
            } else {
                Value::Null
            }
        },
        other => other,
    }
}

/// Extracts a raw document from a dynamic value; fails unless the
/// value is tagged as an object.
pub fn value_to_object(v: Value) -> (r: Result<Document, Error>)
    ensures
        match r {
            Result::Ok(d) => value_view(v) == ValueV::Object(d@),
            Result::Err(e) => !(value_view(v) is Object) && (e matches Error::XValueNotOfType(
                k,
            ) && k@ == "Object"@),
        },
{
    match v {
        Value::Object(d) => Result::Ok(d),
        _ => Result::Err(Error::XValueNotOfType("Object")),
    }
}

/// Extracts a raw array from a dynamic value; fails unless the value
/// is tagged as an array.
pub fn value_to_array(v: Value) -> (r: Result<Vec<Value>, Error>)
    ensures
        match r {
            Result::Ok(es) => value_view(v) == ValueV::Array(crate::value::values_view(es@)),
            Result::Err(e) => !(value_view(v) is Array) && (e matches Error::XValueNotOfType(
                k,
            ) && k@ == "Array"@),
        },
{
    match v {
        Value::Array(es) => Result::Ok(es),
        _ => Result::Err(Error::XValueNotOfType("Array")),
    }
}

/// Embeds the fields of a creation request, plus the server-generated
/// creation timestamp, into a raw document ready to be stored. A
/// lossless embedding: every field keeps its value under the matching
/// dynamic tag, and the document carries exactly these five fields.
pub fn book_content(entry: &BookRequest, created_at: &str) -> (r: Document)
    ensures
        r@.len() == 5,
        r@[0] == ("name"@, ValueV::Strand(entry.name@)),
        r@[1] == ("author"@, ValueV::Strand(entry.author@)),
        r@[2] == ("num_pages"@, ValueV::Number(entry.num_pages as int)),
        r@[3] == ("created_at"@, ValueV::Strand(created_at@)),
        r@[4] == ("tags"@, ValueV::Array(
            Seq::new(entry.tags@.len(), |i: int| ValueV::Strand(entry.tags@[i]@)),
        )),
{
    let mut tag_values: Vec<Value> = Vec::new();
    let mut i: usize = 0;
    while i < entry.tags.len()
        invariant
            i <= entry.tags@.len(),
            tag_values@.len() == i,
            forall|j: int|
                0 <= j < i ==> value_view(tag_values@[j]) == ValueV::Strand(entry.tags@[j]@),
        decreases entry.tags@.len() - i,
    {
        tag_values.push(Value::Strand(entry.tags[i].clone()));
        i = i + 1;
    }
    proof {
        crate::value::lemma_values_view(tag_values@);
        assert(crate::value::values_view(tag_values@) =~= Seq::new(
            entry.tags@.len(),
            |j: int| ValueV::Strand(entry.tags@[j]@),
        ));
    }
    let mut fields: Vec<(String, Value)> = Vec::new();
    fields.push((String::from_str("name"), Value::Strand(entry.name.clone())));
    fields.push((String::from_str("author"), Value::Strand(entry.author.clone())));
    fields.push((String::from_str("num_pages"), Value::Number(entry.num_pages as i64)));
    fields.push((String::from_str("created_at"), Value::Strand(String::from_str(created_at))));
    fields.push((String::from_str("tags"), Value::Array(tag_values)));
    let doc = Document { fields };
    proof {
        crate::value::lemma_fields_view(doc.fields@);
    }
    doc
}

} // verus!

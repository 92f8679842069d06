use vstd::prelude::*;

use crate::convert::{
    array_to_books, book_content, book_views, books_of, doc_to_book_spec, document_to_book,
    thing_text, value_first, value_to_array, value_to_object, Book, BookRequest, BookRequestV,
};
use crate::error::Error;
use crate::ident::{check_valid_id, dec_digits, u64_to_dec, valid_id};
use crate::value::{lookup_field, value_view, Document, DocumentV, Thing, ThingV, Value, ValueV};

verus! {

/// The execution context every query runs under: a fixed namespace
/// and database selector, chosen once when the store is opened.
pub struct Session {
    pub ns: String,
    pub db: String,
}

/// The embedded document store: one table of raw documents, plus the
/// counter the store assigns fresh record identifiers from.
pub struct Datastore {
    pub rows: Vec<Document>,
    pub next_id: u64,
}

/// One per-statement response: the statement's result value, or the
/// store's own execution error.
pub struct Response {
    pub result: Result<Value, Error>,
}

/// A fixed query template together with its bound variables. Each
/// variant is one of the four query shapes the library executes:
///
/// - `SelectAll`: `SELECT * FROM book`.
/// - `SelectThing`: `SELECT * FROM $th`, with `$th` bound to a record
///   reference.
/// - `CreateContent`: `CREATE book CONTENT $data`, with `$data` bound
///   to a document of fields to store.
/// - `DeleteThing`: `DELETE $th`, with `$th` bound to a record
///   reference.
pub enum Statement {
    SelectAll,
    SelectThing(Thing),
    CreateContent(Document),
    DeleteThing(Thing),
}

/// The record reference a stored document carries: the value of its
/// `id` field, if that value is a reference.
pub open spec fn row_ref(d: crate::value::DocumentV) -> Option<ThingV> {
    match lookup_field(d, "id"@) {
        Option::Some(ValueV::Thing(t)) => Option::Some(t),
        _ => Option::None,
    }
}

/// The first stored document whose reference is `t`, if any.
pub open spec fn find_row(rows: Seq<Document>, t: ThingV) -> Option<Document>
    decreases rows.len(),
{
    if rows.len() == 0 {
        Option::None
    } else if row_ref(rows[0]@) == Option::Some(t) {
        Option::Some(rows[0])
    } else {
        find_row(rows.drop_first(), t)
    }
}

/// The stored documents left after deleting every document whose
/// reference is `t`.
pub open spec fn remove_row(rows: Seq<Document>, t: ThingV) -> Seq<Document>
    decreases rows.len(),
{
    if rows.len() == 0 {
        Seq::empty()
    } else if row_ref(rows[0]@) == Option::Some(t) {
        remove_row(rows.drop_first(), t)
    } else {
        seq![rows[0]] + remove_row(rows.drop_first(), t)
    }
}

/// The stored documents as one raw result array, elementwise.
pub open spec fn rows_value(rows: Seq<Document>) -> Seq<ValueV> {
    Seq::new(rows.len(), |i: int| ValueV::Object(rows[i]@))
}

/// Well-formedness of the store: every stored document carries a
/// reference in the book table whose identifier the counter has
/// already passed, so the next assigned identifier is fresh.
pub open spec fn store_wf(rows: Seq<Document>, next_id: u64) -> bool {
    forall|i: int|
        0 <= i < rows.len() ==> exists|k: nat|
            k < next_id && row_ref(#[trigger] rows[i]@) == Option::Some(
                ThingV { tb: "book"@, id: dec_digits(k) },
            )
}

/// Takes the first per-statement response of an executed query. The
/// store contract guarantees at least one response per executed
/// statement, so an empty response sequence is a logic error that
/// callers must rule out, not a recoverable condition.
pub fn take_first(mut responses: Vec<Response>) -> (r: Response)
    requires
        responses@.len() > 0,
    ensures
        r == responses@[0],
{
    responses.remove(0)
}

impl Datastore {
    /// Whether the document at `i` carries the reference `t`.
    fn row_matches(&self, i: usize, t: &Thing) -> (r: bool)
        requires
            i < self.rows@.len(),
        ensures
            r == (row_ref(self.rows@[i as int]@) == Option::Some(t@)),
    {
        match self.rows[i].get_field("id") {
            Option::Some(v) => match v {
                Value::Thing(rt) => rt.tb == t.tb && rt.id == t.id,
                _ => false,
            },
            Option::None => false,
        }
    }

    /// Executes one statement against the store and returns its
    /// per-statement responses: always exactly one, since every
    /// template holds exactly one statement.
    ///
    /// - `SelectAll` leaves the store unchanged and yields the whole
    ///   table as an array of documents.
    /// - `SelectThing` leaves the store unchanged and yields an array
    ///   holding the referenced document, or an empty array if no
    ///   document carries that reference.
    /// - `CreateContent` appends a fresh document made of a
    ///   store-assigned `id` field followed by the bound content, and
    ///   yields an array holding the created document.
    /// - `DeleteThing` removes every document carrying the bound
    ///   reference; its result is a success signal only, with no
    ///   payload modeled.
    pub fn execute(&mut self, stmt: Statement) -> (r: Vec<Response>)
        requires
            stmt is CreateContent ==> old(self).next_id < u64::MAX,
        ensures
            r@.len() == 1,
            match stmt {
                Statement::SelectAll => {
                    &&& *final(self) == *old(self)
                    &&& r@[0].result matches Ok(v) && value_view(v) == ValueV::Array(
                        rows_value(old(self).rows@),
                    )
                },
                Statement::SelectThing(t) => {
                    &&& *final(self) == *old(self)
                    &&& r@[0].result matches Ok(v) && value_view(v) == ValueV::Array(
                        match find_row(old(self).rows@, t@) {
                            Option::Some(d) => seq![ValueV::Object(d@)],
                            Option::None => Seq::empty(),
                        },
                    )
                },
                Statement::CreateContent(doc) => {
                    &&& final(self).next_id == old(self).next_id + 1
                    &&& final(self).rows@.len() == old(self).rows@.len() + 1
                    &&& forall|j: int|
                        0 <= j < old(self).rows@.len() ==> final(self).rows@[j] == old(
                            self,
                        ).rows@[j]
                    &&& final(self).rows@.last()@ == seq![
                        (
                            "id"@,
                            ValueV::Thing(
                                ThingV { tb: "book"@, id: dec_digits(old(self).next_id as nat) },
                            ),
                        ),
                    ] + doc@
                    &&& r@[0].result matches Ok(v) && value_view(v) == ValueV::Array(
                        seq![ValueV::Object(final(self).rows@.last()@)],
                    )
                },
                Statement::DeleteThing(t) => {
                    &&& final(self).rows@ == remove_row(old(self).rows@, t@)
                    &&& final(self).next_id == old(self).next_id
                    &&& r@[0].result matches Ok(v) && value_view(v) is Null
                },
            },
    {
        match stmt {
            Statement::SelectAll => {
                let mut objs: Vec<Value> = Vec::new();
                let mut i: usize = 0;
                while i < self.rows.len()
                    invariant
                        i <= self.rows@.len(),
                        objs@.len() == i,
                        forall|j: int|
                            0 <= j < i ==> value_view(objs@[j]) == ValueV::Object(self.rows@[j]@),
                    decreases self.rows@.len() - i,
                {
                    let copy = self.rows[i].duplicate();
                    objs.push(Value::Object(copy));
                    i = i + 1;
                }
                proof {
                    crate::value::lemma_values_view(objs@);
                    assert(crate::value::values_view(objs@) =~= rows_value(self.rows@));
                }
                vec![Response { result: Result::Ok(Value::Array(objs)) }]
            },
            Statement::SelectThing(t) => {
                proof {
                    assert(self.rows@.skip(0) =~= self.rows@);
                }
                let mut i: usize = 0;
                let mut found: Option<Document> = Option::None;
                while i < self.rows.len() && found.is_none()
                    invariant
                        i <= self.rows@.len(),
                        match found {
                            Option::Some(d) => find_row(self.rows@, t@) matches Some(row) && d@
                                == row@,
                            Option::None => find_row(self.rows@, t@) == find_row(
                                self.rows@.skip(i as int),
                                t@,
                            ),
                        },
                    decreases self.rows@.len() - i,
                {
                    proof {
                        assert(self.rows@.skip(i as int)[0] == self.rows@[i as int]);
                        assert(self.rows@.skip(i as int).drop_first() =~= self.rows@.skip(
                            i as int + 1,
                        ));
                    }
                    if self.row_matches(i, &t) {
                        found = Option::Some(self.rows[i].duplicate());
                    }
                    i = i + 1;
                }
                match found {
                    Option::Some(d) => {
                        let objs: Vec<Value> = vec![Value::Object(d)];
                        proof {
                            crate::value::lemma_values_view(objs@);
                            assert(crate::value::values_view(objs@) =~= seq![
                                ValueV::Object(find_row(self.rows@, t@)->Some_0@),
                            ]);
                        }
                        vec![Response { result: Result::Ok(Value::Array(objs)) }]
                    },
                    Option::None => {
                        proof {
                            assert(self.rows@.skip(i as int).len() == 0);
                        }
                        let objs: Vec<Value> = Vec::new();
                        proof {
                            crate::value::lemma_values_view(objs@);
                            assert(crate::value::values_view(objs@) =~= Seq::<ValueV>::empty());
                        }
                        vec![Response { result: Result::Ok(Value::Array(objs)) }]
                    },
                }
            },
            Statement::CreateContent(doc) => {
                let id_text = u64_to_dec(self.next_id);
                let reference = Thing { tb: String::from_str("book"), id: id_text };
                let ghost content = doc@;
                let mut fields = doc.fields;
                fields.insert(0, (String::from_str("id"), Value::Thing(reference)));
                let created = Document { fields };
                proof {
                    crate::value::lemma_fields_view(created.fields@);
                    crate::value::lemma_fields_view(doc.fields@);
                    assert(created@ =~= seq![
                        (
                            "id"@,
                            ValueV::Thing(
                                ThingV { tb: "book"@, id: dec_digits(self.next_id as nat) },
                            ),
                        ),
                    ] + content);
                }
                let echo = created.duplicate();
                self.rows.push(created);
                self.next_id = self.next_id + 1;
                let objs: Vec<Value> = vec![Value::Object(echo)];
                proof {
                    crate::value::lemma_values_view(objs@);
                    assert(crate::value::values_view(objs@) =~= seq![
                        ValueV::Object(self.rows@.last()@),
                    ]);
                }
                vec![Response { result: Result::Ok(Value::Array(objs)) }]
            },
            Statement::DeleteThing(t) => {
                let ghost orig = self.rows@;
                proof {
                    assert(self.rows@.take(0) =~= Seq::<Document>::empty());
                    assert(self.rows@.skip(0) =~= self.rows@);
                }
                let mut i: usize = 0;
                while i < self.rows.len()
                    invariant
                        i <= self.rows@.len(),
                        self.next_id == old(self).next_id,
                        remove_row(orig, t@) == self.rows@.take(i as int) + remove_row(
                            self.rows@.skip(i as int),
                            t@,
                        ),
                    decreases self.rows@.len() - i,
                {
                    proof {
                        assert(self.rows@.skip(i as int)[0] == self.rows@[i as int]);
                        assert(self.rows@.skip(i as int).drop_first() =~= self.rows@.skip(
                            i as int + 1,
                        ));
                    }
                    if self.row_matches(i, &t) {
                        let ghost pre = self.rows@;
                        let _ = self.rows.remove(i);
                        proof {
                            assert(self.rows@.take(i as int) =~= pre.take(i as int));
                            assert(self.rows@.skip(i as int) =~= pre.skip(i as int + 1));
                        }
                    } else {
                        proof {
                            let pre = self.rows@;
                            assert(pre.take(i as int + 1) =~= pre.take(i as int) + seq![
                                pre[i as int],
                            ]);
                            assert((pre.take(i as int) + seq![pre[i as int]]) + remove_row(
                                pre.skip(i as int + 1),
                                t@,
                            ) =~= pre.take(i as int) + (seq![pre[i as int]] + remove_row(
                                pre.skip(i as int + 1),
                                t@,
                            )));
                        }
                        i = i + 1;
                    }
                }
                proof {
                    assert(self.rows@.skip(i as int).len() == 0);
                    assert(self.rows@.take(i as int) =~= self.rows@);
                    assert(self.rows@.take(i as int) + remove_row(self.rows@.skip(i as int), t@)
                        =~= self.rows@);
                }
                vec![Response { result: Result::Ok(Value::Null) }]
            },
        }
    }
}

/// The session/store handle: owns the embedded store and the
/// execution context every domain operation runs under.
pub struct SurrealDB {
    pub ds: Datastore,
    pub ses: Session,
}

/// The document a creation is expected to store: a store-assigned
/// reference under `id`, then the request fields and the creation
/// timestamp, in the order the content document carries them.
pub open spec fn created_doc_view(req: BookRequestV, created_at: Seq<char>, k: nat) -> DocumentV {
    seq![
        ("id"@, ValueV::Thing(ThingV { tb: "book"@, id: dec_digits(k) })),
        ("name"@, ValueV::Strand(req.name)),
        ("author"@, ValueV::Strand(req.author)),
        ("num_pages"@, ValueV::Number(req.num_pages)),
        ("created_at"@, ValueV::Strand(created_at)),
        ("tags"@, ValueV::Array(Seq::new(req.tags.len(), |i: int| ValueV::Strand(req.tags[i])))),
    ]
}

/// How a creation changes the handle: the counter advances by one,
/// the stored documents keep their places, and one new document with
/// the expected fields stands at the end.
pub open spec fn created_post(
    pre: SurrealDB,
    post: SurrealDB,
    req: BookRequestV,
    created_at: Seq<char>,
) -> bool {
    &&& post.ds.next_id == pre.ds.next_id + 1
    &&& post.ds.rows@.len() == pre.ds.rows@.len() + 1
    &&& forall|j: int| 0 <= j < pre.ds.rows@.len() ==> post.ds.rows@[j] == pre.ds.rows@[j]
    &&& post.ds.rows@.last()@ == created_doc_view(req, created_at, pre.ds.next_id as nat)
    &&& post.ses == pre.ses
}

/// Relies on chrono's `Utc::now` and the `Display` form of a UTC
/// timestamp (`YYYY-MM-DD HH:MM:SS.ssssss UTC`): the printed current
/// time is never empty. The result depends on the clock, so nothing
/// more is stated of it.
#[verifier::external_body]
fn now_string() -> (r: String)
    ensures
        r@.len() > 0,
{
    chrono::Utc::now().to_string()
}

impl SurrealDB {
    /// Well-formedness of the handle: the store's freshness invariant.
    pub open spec fn wf(&self) -> bool {
        store_wf(self.ds.rows@, self.ds.next_id)
    }

    /// Opens the embedded store, empty and in-memory, under a fixed
    /// namespace/database context. Called once at process start.
    pub fn init() -> (r: Result<SurrealDB, Error>)
        ensures
            r matches Ok(db) && (db.ds.rows@.len() == 0 && db.ds.next_id == 0 && db.wf()),
    {
        let ds = Datastore { rows: Vec::new(), next_id: 0 };
        let ses = Session { ns: String::from_str("books"), db: String::from_str("books") };
        Result::Ok(SurrealDB { ds, ses })
    }

    /// Qualifies a bare identifier into the store's reference form,
    /// `book:<id>`: pure string construction plus a validity check
    /// that fails if the bare identifier is empty or holds characters
    /// invalid in a reference.
    pub fn qualify(tid: &str) -> (r: Result<Thing, Error>)
        ensures
            valid_id(tid@) ==> (r matches Ok(t) && t@ == ThingV { tb: "book"@, id: tid@ }),
            !valid_id(tid@) ==> (r matches Err(e) && e is Surreal),
    {
        if check_valid_id(tid) {
            Result::Ok(Thing { tb: String::from_str("book"), id: String::from_str(tid) })
        } else {
            Result::Err(
                Error::Surreal(
                    String::from_str("can not parse the record reference: book:").concat(tid),
                ),
            )
        }
    }

    /// Lists the whole table as typed books: select-all, then the
    /// all-or-nothing array conversion.
    pub fn fetch_books(&mut self) -> (r: Result<Vec<Book>, Error>)
        ensures
            *final(self) == *old(self),
            match books_of(rows_value(old(self).ds.rows@)) {
                Result::Ok(bs) => r matches Ok(books) && book_views(books@) == bs,
                Result::Err(kind) => r matches Err(e) && (e matches Error::XValueNotOfType(k)
                    && k@ == kind),
            },
    {
        let responses = self.ds.execute(Statement::SelectAll);
        let first = take_first(responses);
        let val = match first.result {
            Result::Ok(v) => v,
            Result::Err(e) => {
                return Result::Err(e);
            },
        };
        let arr = match value_to_array(val) {
            Result::Ok(es) => es,
            Result::Err(e) => {
                return Result::Err(e);
            },
        };
        array_to_books(&arr)
    }

    /// Fetches one book by its bare identifier: qualify, select by
    /// reference, take the first result, convert. A missing record
    /// yields an empty result array, whose first element is no
    /// document: the conversion then fails with the expected kind
    /// `Object`, so a missing identifier is reported as a conversion
    /// error rather than a distinct not-found kind.
    pub fn get_book(&mut self, tid: &String) -> (r: Result<Book, Error>)
        ensures
            *final(self) == *old(self),
            !valid_id(tid@) ==> (r matches Err(e) && e is Surreal),
            valid_id(tid@) ==> match find_row(
                old(self).ds.rows@,
                ThingV { tb: "book"@, id: tid@ },
            ) {
                Option::Some(d) => match doc_to_book_spec(d@) {
                    Result::Ok(b) => r matches Ok(book) && book@ == b,
                    Result::Err(kind) => r matches Err(e) && (e matches Error::XValueNotOfType(
                        k,
                    ) && k@ == kind),
                },
                Option::None => r matches Err(e) && (e matches Error::XValueNotOfType(k) && k@
                    == "Object"@),
            },
    {
        let t = match Self::qualify(tid.as_str()) {
            Result::Ok(t) => t,
            Result::Err(e) => {
                return Result::Err(e);
            },
        };
        let responses = self.ds.execute(Statement::SelectThing(t));
        let first = take_first(responses);
        let val = match first.result {
            Result::Ok(v) => v,
            Result::Err(e) => {
                return Result::Err(e);
            },
        };
        let doc = match value_to_object(value_first(val)) {
            Result::Ok(d) => d,
            Result::Err(e) => {
                return Result::Err(e);
            },
        };
        document_to_book(&doc)
    }

    /// Creates a book from the request fields plus the given creation
    /// timestamp: builds the content document and executes the
    /// create-with-content template. Returns the raw per-statement
    /// responses; the created record's details are not returned, so a
    /// caller re-fetches if it needs them.
    pub fn create_book_at(&mut self, entry: &BookRequest, created_at: &str) -> (r: Result<
        Vec<Response>,
        Error,
    >)
        requires
            old(self).ds.next_id < u64::MAX,
        ensures
            created_post(*old(self), *final(self), entry@, created_at@),
            old(self).wf() ==> final(self).wf(),
            r matches Ok(resps) && resps@.len() == 1,
    {
        let content = book_content(entry, created_at);
        let ghost content_view = content@;
        let responses = self.ds.execute(Statement::CreateContent(content));
        proof {
            let post_doc = self.ds.rows@.last()@;
            let target = created_doc_view(entry@, created_at@, old(self).ds.next_id as nat);
            assert(post_doc.len() == 6);
            assert(post_doc[0] == target[0]);
            assert(post_doc[1] == content_view[0] && post_doc[1] == target[1]);
            assert(post_doc[2] == content_view[1] && post_doc[2] == target[2]);
            assert(post_doc[3] == content_view[2] && post_doc[3] == target[3]);
            assert(post_doc[4] == content_view[3] && post_doc[4] == target[4]);
            assert(post_doc[5] == content_view[4]);
            assert(post_doc[5].0 == target[5].0);
            assert(post_doc[5].1->Array_0 =~= target[5].1->Array_0);
            assert(post_doc[5].1 == target[5].1);
            assert(self.ds.rows@.last()@ =~= created_doc_view(
                entry@,
                created_at@,
                old(self).ds.next_id as nat,
            ));
            if old(self).wf() {
                lemma_created_row_ref(entry@, created_at@, old(self).ds.next_id as nat);
                assert forall|i: int| 0 <= i < self.ds.rows@.len() implies exists|k: nat|
                    k < self.ds.next_id && row_ref(#[trigger] self.ds.rows@[i]@) == Option::Some(
                        ThingV { tb: "book"@, id: dec_digits(k) },
                    ) by {
                    if i < old(self).ds.rows@.len() {
                        assert(exists|k: nat|
                            k < old(self).ds.next_id && row_ref(#[trigger] old(self).ds.rows@[i]@)
                                == Option::Some(ThingV { tb: "book"@, id: dec_digits(k) }));
                        let k0 = choose|k: nat|
                            k < old(self).ds.next_id && row_ref(old(self).ds.rows@[i]@)
                                == Option::Some(ThingV { tb: "book"@, id: dec_digits(k) });
                        assert(k0 < self.ds.next_id && row_ref(self.ds.rows@[i]@) == Option::Some(
                            ThingV { tb: "book"@, id: dec_digits(k0) },
                        ));
                    } else {
                        let k0 = old(self).ds.next_id as nat;
                        assert(self.ds.rows@[i] == self.ds.rows@.last());
                        assert(k0 < self.ds.next_id && row_ref(self.ds.rows@[i]@) == Option::Some(
                            ThingV { tb: "book"@, id: dec_digits(k0) },
                        ));
                    }
                }
            }
        }
        Result::Ok(responses)
    }

    /// Creates a book from the request fields, timestamped with the
    /// clock's current reading at the moment of creation.
    pub fn create_book(&mut self, entry: &BookRequest) -> (r: Result<Vec<Response>, Error>)
        requires
            old(self).ds.next_id < u64::MAX,
        ensures
            exists|ts: Seq<char>|
                #[trigger] created_post(*old(self), *final(self), entry@, ts) && ts.len() > 0,
            old(self).wf() ==> final(self).wf(),
            r matches Ok(resps) && resps@.len() == 1,
    {
        let ts = now_string();
        let r = self.create_book_at(entry, ts.as_str());
        proof {
            assert(created_post(*old(self), *final(self), entry@, ts@) && ts@.len() > 0);
        }
        r
    }

    /// Deletes a book by its bare identifier: qualify, execute the
    /// delete-by-reference template, and return the qualified
    /// identifier as confirmation.
    pub fn delete_book(&mut self, tid: &str) -> (r: Result<String, Error>)
        ensures
            !valid_id(tid@) ==> (*final(self) == *old(self) && (r matches Err(e) && e
                is Surreal)),
            valid_id(tid@) ==> {
                &&& final(self).ds.rows@ == remove_row(
                    old(self).ds.rows@,
                    ThingV { tb: "book"@, id: tid@ },
                )
                &&& final(self).ds.next_id == old(self).ds.next_id
                &&& final(self).ses == old(self).ses
                &&& r matches Ok(s) && s@ == thing_text(ThingV { tb: "book"@, id: tid@ })
            },
            old(self).wf() ==> final(self).wf(),
    {
        let t = match Self::qualify(tid) {
            Result::Ok(t) => t,
            Result::Err(e) => {
                return Result::Err(e);
            },
        };
        let qualified = String::from_str("book:").concat(tid);
        proof {
            reveal_strlit("book:");
            reveal_strlit("book");
            assert(qualified@ =~= thing_text(ThingV { tb: "book"@, id: tid@ }));
        }
        let responses = self.ds.execute(Statement::DeleteThing(t));
        let first = take_first(responses);
        proof {
            if old(self).wf() {
                lemma_remove_row_wf(old(self).ds.rows@, t@, old(self).ds.next_id);
            }
        }
        match first.result {
            Result::Ok(_) => Result::Ok(qualified),
            Result::Err(e) => Result::Err(e),
        }
    }
}

/// A freshly created document's reference is the store-assigned one:
/// its `id` field stands first and carries the expected reference.
pub proof fn lemma_created_row_ref(req: BookRequestV, created_at: Seq<char>, k: nat)
    ensures
        row_ref(created_doc_view(req, created_at, k)) == Option::Some(
            ThingV { tb: "book"@, id: dec_digits(k) },
        ),
{
    let d = created_doc_view(req, created_at, k);
    assert(d[0].0 == "id"@);
    assert(lookup_field(d, "id"@) == Option::Some(d[0].1));
}

/// Deleting preserves the store's freshness invariant: what remains
/// is drawn from what was stored.
proof fn lemma_remove_row_wf(rows: Seq<Document>, t: ThingV, next_id: u64)
    requires
        store_wf(rows, next_id),
    ensures
        store_wf(remove_row(rows, t), next_id),
    decreases rows.len(),
{
    if rows.len() > 0 {
        let rest = rows.drop_first();
        assert forall|i: int| 0 <= i < rest.len() implies exists|k: nat|
            k < next_id && row_ref(#[trigger] rest[i]@) == Option::Some(
                ThingV { tb: "book"@, id: dec_digits(k) },
            ) by {
            assert(rest[i] == rows[i + 1]);
            assert(exists|k: nat|
                k < next_id && row_ref(#[trigger] rows[i + 1]@) == Option::Some(
                    ThingV { tb: "book"@, id: dec_digits(k) },
                ));
        }
        lemma_remove_row_wf(rest, t, next_id);
        if row_ref(rows[0]@) == Option::Some(t) {
        } else {
            let out = seq![rows[0]] + remove_row(rest, t);
            assert forall|i: int| 0 <= i < out.len() implies exists|k: nat|
                k < next_id && row_ref(#[trigger] out[i]@) == Option::Some(
                    ThingV { tb: "book"@, id: dec_digits(k) },
                ) by {
                if i == 0 {
                    assert(out[0] == rows[0]);
                    assert(exists|k: nat|
                        k < next_id && row_ref(#[trigger] rows[0]@) == Option::Some(
                            ThingV { tb: "book"@, id: dec_digits(k) },
                        ));
                } else {
                    assert(out[i] == remove_row(rest, t)[i - 1]);
                    assert(exists|k: nat|
                        k < next_id && row_ref(#[trigger] remove_row(rest, t)[i - 1]@)
                            == Option::Some(ThingV { tb: "book"@, id: dec_digits(k) }));
                }
            }
        }
    }
}

} // verus!


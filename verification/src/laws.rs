use vstd::prelude::*;

use crate::convert::{books_of, doc_to_book_spec, field_or_null, thing_text, BookRequestV, BookV};
use crate::db::{created_doc_view, created_post, find_row, remove_row, row_ref, SurrealDB};
use crate::ident::{dec_digits, lemma_dec_injective, lemma_dec_valid, valid_id};
use crate::value::{lookup_field, Document, DocumentV, ThingV, ValueV};

verus! {

/// A freshly created document converts back into exactly the book it
/// was made from: the store-assigned reference printed as `book:<id>`,
/// the request fields, and the creation timestamp.
pub proof fn lemma_created_doc_converts(req: BookRequestV, created_at: Seq<char>, k: nat)
    ensures
        doc_to_book_spec(created_doc_view(req, created_at, k)) == Result::<
            BookV,
            Seq<char>,
        >::Ok(
            BookV {
                id: thing_text(ThingV { tb: "book"@, id: dec_digits(k) }),
                name: req.name,
                author: req.author,
                num_pages: req.num_pages,
                created_at,
                tags: req.tags,
            },
        ),
{
    reveal_strlit("id");
    reveal_strlit("name");
    reveal_strlit("author");
    reveal_strlit("num_pages");
    reveal_strlit("created_at");
    reveal_strlit("tags");
    let d = created_doc_view(req, created_at, k);
    let d1 = d.drop_first();
    let d2 = d1.drop_first();
    let d3 = d2.drop_first();
    let d4 = d3.drop_first();
    let d5 = d4.drop_first();
    assert(d1.len() == 5 && d1[0] == d[1] && d1[1] == d[2] && d1[2] == d[3] && d1[3] == d[4]
        && d1[4] == d[5]);
    assert(d2.len() == 4 && d2[0] == d[2] && d2[1] == d[3] && d2[2] == d[4] && d2[3] == d[5]);
    assert(d3.len() == 3 && d3[0] == d[3] && d3[1] == d[4] && d3[2] == d[5]);
    assert(d4.len() == 2 && d4[0] == d[4] && d4[1] == d[5]);
    assert(d5.len() == 1 && d5[0] == d[5]);
    assert(d.len() == 6);
    assert(d[0].0 == "id"@ && d[1].0 == "name"@ && d[2].0 == "author"@ && d[3].0 == "num_pages"@
        && d[4].0 == "created_at"@ && d[5].0 == "tags"@);
    assert("id"@.len() == 2 && "name"@.len() == 4 && "author"@.len() == 6 && "num_pages"@.len()
        == 9 && "created_at"@.len() == 10 && "tags"@.len() == 4);
    assert("name"@[0] == 'n' && "tags"@[0] == 't');
    assert("name"@ != "tags"@);
    assert(lookup_field(d, "id"@) == Option::Some(d[0].1));
    assert(lookup_field(d, "name"@) == lookup_field(d1, "name"@));
    assert(lookup_field(d1, "name"@) == Option::Some(d[1].1));
    assert(lookup_field(d, "author"@) == lookup_field(d1, "author"@));
    assert(lookup_field(d1, "author"@) == lookup_field(d2, "author"@));
    assert(lookup_field(d2, "author"@) == Option::Some(d[2].1));
    assert(lookup_field(d, "num_pages"@) == lookup_field(d1, "num_pages"@));
    assert(lookup_field(d1, "num_pages"@) == lookup_field(d2, "num_pages"@));
    assert(lookup_field(d2, "num_pages"@) == lookup_field(d3, "num_pages"@));
    assert(lookup_field(d3, "num_pages"@) == Option::Some(d[3].1));
    assert(lookup_field(d, "created_at"@) == lookup_field(d1, "created_at"@));
    assert(lookup_field(d1, "created_at"@) == lookup_field(d2, "created_at"@));
    assert(lookup_field(d2, "created_at"@) == lookup_field(d3, "created_at"@));
    assert(lookup_field(d3, "created_at"@) == lookup_field(d4, "created_at"@));
    assert(lookup_field(d4, "created_at"@) == Option::Some(d[4].1));
    assert(lookup_field(d, "tags"@) == lookup_field(d1, "tags"@));
    assert(lookup_field(d1, "tags"@) == lookup_field(d2, "tags"@));
    assert(lookup_field(d2, "tags"@) == lookup_field(d3, "tags"@));
    assert(lookup_field(d3, "tags"@) == lookup_field(d4, "tags"@));
    assert(lookup_field(d4, "tags"@) == lookup_field(d5, "tags"@));
    assert(lookup_field(d5, "tags"@) == Option::Some(d[5].1));
    let tagsv = field_or_null(d, "tags"@);
    assert(crate::convert::tags_of(tagsv) matches Some(ts) && ts =~= req.tags);
}

/// Appending a document whose reference no earlier document carries
/// makes it the one a select-by-reference finds.
proof fn lemma_find_appended(rows: Seq<Document>, d: Document, t: ThingV)
    requires
        forall|i: int| 0 <= i < rows.len() ==> row_ref(#[trigger] rows[i]@) != Option::Some(t),
        row_ref(d@) == Option::Some(t),
    ensures
        find_row(rows.push(d), t) == Option::Some(d),
    decreases rows.len(),
{
    if rows.len() == 0 {
        assert(rows.push(d)[0] == d);
    } else {
        assert(rows.push(d)[0] == rows[0]);
        assert(rows.push(d).drop_first() =~= rows.drop_first().push(d));
        assert forall|i: int| 0 <= i < rows.drop_first().len() implies row_ref(
            #[trigger] rows.drop_first()[i]@,
        ) != Option::Some(t) by {
            assert(rows.drop_first()[i] == rows[i + 1]);
        }
        lemma_find_appended(rows.drop_first(), d, t);
    }
}

/// Round trip: on a well-formed handle, creating a book and then
/// fetching the identifier the store assigned yields a book with the
/// same name, author, page count and tags, the creation timestamp,
/// and the qualified identifier `book:<id>`. Stated over the
/// contracts of `create_book_at` (`created_post`) and `get_book`
/// (`find_row` plus `doc_to_book_spec`).
pub proof fn lemma_create_then_get(
    pre: SurrealDB,
    post: SurrealDB,
    req: BookRequestV,
    created_at: Seq<char>,
)
    requires
        pre.wf(),
        created_post(pre, post, req, created_at),
    ensures
        valid_id(dec_digits(pre.ds.next_id as nat)),
        find_row(post.ds.rows@, ThingV { tb: "book"@, id: dec_digits(pre.ds.next_id as nat) })
            == Option::Some(post.ds.rows@.last()),
        doc_to_book_spec(post.ds.rows@.last()@) == Result::<BookV, Seq<char>>::Ok(
            BookV {
                id: thing_text(ThingV { tb: "book"@, id: dec_digits(pre.ds.next_id as nat) }),
                name: req.name,
                author: req.author,
                num_pages: req.num_pages,
                created_at,
                tags: req.tags,
            },
        ),
{
    let k = pre.ds.next_id as nat;
    let t = ThingV { tb: "book"@, id: dec_digits(k) };
    lemma_dec_valid(k);
    lemma_created_doc_converts(req, created_at, k);
    crate::db::lemma_created_row_ref(req, created_at, k);
    assert forall|i: int| 0 <= i < pre.ds.rows@.len() implies row_ref(#[trigger] pre.ds.rows@[i]@)
        != Option::Some(t) by {
        assert(exists|j: nat|
            j < pre.ds.next_id && row_ref(#[trigger] pre.ds.rows@[i]@) == Option::Some(
                ThingV { tb: "book"@, id: dec_digits(j) },
            ));
        let j = choose|j: nat|
            j < pre.ds.next_id && row_ref(pre.ds.rows@[i]@) == Option::Some(
                ThingV { tb: "book"@, id: dec_digits(j) },
            );
        if row_ref(pre.ds.rows@[i]@) == Option::Some(t) {
            lemma_dec_injective(j, k);
        }
    }
    assert(post.ds.rows@ =~= pre.ds.rows@.push(post.ds.rows@.last()));
    lemma_find_appended(pre.ds.rows@, post.ds.rows@.last(), t);
}

/// Idempotent delete-then-get: after deleting a reference, no stored
/// document carries it, so a fetch of the same identifier finds
/// nothing and — by `get_book`'s contract — yields an error rather
/// than a stale or zero-valued book.
pub proof fn lemma_delete_then_get(rows: Seq<Document>, t: ThingV)
    ensures
        find_row(remove_row(rows, t), t) is None,
    decreases rows.len(),
{
    if rows.len() > 0 {
        lemma_delete_then_get(rows.drop_first(), t);
        if row_ref(rows[0]@) == Option::Some(t) {
        } else {
            let out = seq![rows[0]] + remove_row(rows.drop_first(), t);
            assert(out[0] == rows[0]);
            assert(out.drop_first() =~= remove_row(rows.drop_first(), t));
        }
    }
}

/// Whether one element of a raw result array converts into a book.
pub open spec fn convertible(v: ValueV) -> bool {
    match v {
        ValueV::Object(d) => doc_to_book_spec(d) is Ok,
        _ => false,
    }
}

/// All-or-nothing list: if any one element of a result array is
/// malformed, the whole array conversion fails — `list` never returns
/// the other elements as a partial result.
pub proof fn lemma_list_all_or_nothing(s: Seq<ValueV>, i: int)
    requires
        0 <= i < s.len(),
        !convertible(s[i]),
    ensures
        books_of(s) is Err,
    decreases s.len(),
{
    if i == 0 {
    } else {
        assert(s.drop_first()[i - 1] == s[i]);
        lemma_list_all_or_nothing(s.drop_first(), i - 1);
    }
}

/// Type-mismatch fail-fast: a document whose `num_pages` field holds
/// a string (or anything that is no number) never converts — the
/// conversion yields an error, not a partially populated book.
pub proof fn lemma_type_mismatch_fail_fast(d: DocumentV)
    requires
        !(field_or_null(d, "num_pages"@) is Number),
    ensures
        doc_to_book_spec(d) is Err,
{
}

} // verus!

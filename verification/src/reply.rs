//! The HTTP surface: the JSON envelopes each handler answers with, an
//! exact rendering function for each, the storage-error classification,
//! and the four request handlers with their response contracts.
use crate::store::{
    lemma_id_position_unique,
    has_id, has_title, idx_of, ids_sorted, page_of, placed, record_of, TodoStore,
};
use crate::text::{contains_seq, contains_sub, dec_int, dec_nat, dec_i64, dec_u64, escape_json,
    json_escaped, push_char};
use crate::todo::{uuid_hyphenated, uuid_to_string, CreateTodoSchema, FilterOptions, Todo};
use vstd::prelude::*;

verus! {

/// An HTTP response: a status code and a body (empty or a JSON
/// envelope).
pub struct HttpReply {
    pub status: u16,
    pub body: String,
}

/// A storage-layer failure as the service sees it: the driver's error
/// text.
pub struct DbError {
    pub message: String,
}

/// A JSON quoted string: the escaped text between double quotes.
pub open spec fn json_string(s: Seq<char>) -> Seq<char> {
    seq!['"'] + json_escaped(s) + seq!['"']
}

/// The JSON object for one record.
pub open spec fn todo_json(t: Todo) -> Seq<char> {
    "{\"id\":"@ + json_string(uuid_hyphenated(t.id)) + ",\"title\":"@ + json_string(t.title@)
        + ",\"content\":"@ + json_string(t.content@) + ",\"category\":"@ + json_string(t.category@)
        + ",\"completed\":"@ + (if t.completed {
        "true"@
    } else {
        "false"@
    }) + ",\"created_at\":"@ + dec_int(t.created_at as int) + ",\"updated_at\":"@ + dec_int(
        t.updated_at as int,
    ) + "}"@
}

/// The JSON array elements for a page of records, comma separated.
pub open spec fn todos_array(s: Seq<Todo>) -> Seq<char>
    decreases s.len(),
{
    if s.len() == 0 {
        Seq::empty()
    } else if s.len() == 1 {
        todo_json(s[0])
    } else {
        todos_array(s.drop_last()) + seq![','] + todo_json(s.last())
    }
}

/// The list success envelope: a success status, the row count, and the
/// rows.
pub open spec fn list_ok_body(s: Seq<Todo>) -> Seq<char> {
    "{\"status\":\"success\",\"results\":"@ + dec_nat(s.len()) + ",\"todos\":["@ + todos_array(s)
        + "]}"@
}

/// The list failure envelope: a generic error, no detail leaked.
pub open spec fn list_err_body() -> Seq<char> {
    "{\"status\":\"error\",\"message\":\"Something bad happened fetching\"}"@
}

/// The single-record success envelope.
pub open spec fn data_body(t: Todo) -> Seq<char> {
    "{\"status\":\"success\",\"data\":{\"todo\":"@ + todo_json(t) + "}}"@
}

/// The duplicate-title failure envelope.
pub open spec fn duplicate_body() -> Seq<char> {
    "{\"status\":\"fail\",\"message\":\"Todo with that title already exists\"}"@
}

/// The generic create-failure envelope, echoing the raw error detail.
pub open spec fn error_body(detail: Seq<char>) -> Seq<char> {
    "{\"status\":\"error\",\"message\":"@ + json_string(detail) + "}"@
}

/// The not-found message, embedding the requested identifier.
pub open spec fn not_found_message(id: u128) -> Seq<char> {
    "Todo with ID: "@ + uuid_hyphenated(id) + " not found"@
}

/// The not-found failure envelope.
pub open spec fn not_found_body(id: u128) -> Seq<char> {
    "{\"status\":\"fail\",\"message\":"@ + json_string(not_found_message(id)) + "}"@
}

/// The error text the storage layer produces on a uniqueness violation
/// is recognised by this substring.
pub open spec fn duplicate_pattern() -> Seq<char> {
    "duplicate key value violates unique constraint"@
}

/// Whether a storage error text indicates a uniqueness violation.
pub open spec fn is_duplicate_error(m: Seq<char>) -> bool {
    contains_seq(m, duplicate_pattern())
}

/// Classifies a storage error text: true exactly when it indicates a
/// uniqueness violation.
pub fn classify_duplicate(m: &str) -> (r: bool)
    ensures
        r == is_duplicate_error(m@),
{
    contains_sub(m, "duplicate key value violates unique constraint")
}

fn append_json_string(out: &mut String, s: &str)
    ensures
        final(out)@ == old(out)@ + json_string(s@),
{
    push_char(out, '"');
    let e = escape_json(s);
    out.append(e.as_str());
    push_char(out, '"');
    proof {
        assert(final(out)@ =~= old(out)@ + json_string(s@));
    }
}

/// Renders one record as its JSON object.
pub fn render_todo(t: &Todo) -> (r: String)
    ensures
        r@ == todo_json(*t),
{
    let mut s = String::new();
    s.append("{\"id\":");
    let u = uuid_to_string(t.id);
    append_json_string(&mut s, u.as_str());
    s.append(",\"title\":");
    append_json_string(&mut s, t.title.as_str());
    s.append(",\"content\":");
    append_json_string(&mut s, t.content.as_str());
    s.append(",\"category\":");
    append_json_string(&mut s, t.category.as_str());
    s.append(",\"completed\":");
    if t.completed {
        s.append("true");
    } else {
        s.append("false");
    }
    s.append(",\"created_at\":");
    let c = dec_i64(t.created_at);
    s.append(c.as_str());
    s.append(",\"updated_at\":");
    let up = dec_i64(t.updated_at);
    s.append(up.as_str());
    s.append("}");
    proof {
        assert(s@ =~= todo_json(*t));
    }
    s
}

/// Renders a page of records as the inside of a JSON array.
pub fn render_todos(v: &Vec<Todo>) -> (r: String)
    ensures
        r@ == todos_array(v@),
{
    let mut s = String::new();
    let mut i: usize = 0;
    while i < v.len()
        invariant
            i <= v@.len(),
            s@ == todos_array(v@.subrange(0, i as int)),
        decreases v@.len() - i,
    {
        if i > 0 {
            push_char(&mut s, ',');
        }
        let tj = render_todo(&v[i]);
        s.append(tj.as_str());
        proof {
            let cur = v@.subrange(0, i + 1 as int);
            assert(cur.drop_last() =~= v@.subrange(0, i as int));
            assert(cur.last() == v@[i as int]);
            assert(s@ =~= todos_array(cur));
        }
        i = i + 1;
    }
    proof {
        assert(v@.subrange(0, v@.len() as int) =~= v@);
    }
    s
}

fn ok_data_reply(t: &Todo) -> (r: HttpReply)
    ensures
        r.status == 200,
        r.body@ == data_body(*t),
{
    let mut body = String::from_str("{\"status\":\"success\",\"data\":{\"todo\":");
    let tj = render_todo(t);
    body.append(tj.as_str());
    body.append("}}");
    proof {
        assert(body@ =~= data_body(*t));
    }
    HttpReply { status: 200, body }
}

fn not_found_reply(id: u128) -> (r: HttpReply)
    ensures
        r.status == 404,
        r.body@ == not_found_body(id),
{
    let mut msg = String::from_str("Todo with ID: ");
    let u = uuid_to_string(id);
    msg.append(u.as_str());
    msg.append(" not found");
    proof {
        assert(msg@ =~= not_found_message(id));
    }
    let mut body = String::from_str("{\"status\":\"fail\",\"message\":");
    append_json_string(&mut body, msg.as_str());
    body.append("}");
    proof {
        assert(body@ =~= not_found_body(id));
    }
    HttpReply { status: 404, body }
}

/// Maps the outcome of the page select to a response: 200 with the
/// success envelope on rows, 500 with the generic error envelope on a
/// storage failure (no detail leaked).
pub fn list_reply(outcome: &Result<Vec<Todo>, DbError>) -> (r: HttpReply)
    ensures
        outcome is Ok ==> r.status == 200 && r.body@ == list_ok_body(outcome->Ok_0@),
        outcome is Err ==> r.status == 500 && r.body@ == list_err_body(),
{
    match outcome {
        Ok(rows) => {
            let mut body = String::from_str("{\"status\":\"success\",\"results\":");
            let cnt = dec_u64(rows.len() as u64);
            body.append(cnt.as_str());
            body.append(",\"todos\":[");
            let tj = render_todos(rows);
            body.append(tj.as_str());
            body.append("]}");
            proof {
                assert(body@ =~= list_ok_body(rows@));
            }
            HttpReply { status: 200, body }
        },
        Err(_) => HttpReply {
            status: 500,
            body: String::from_str(
                "{\"status\":\"error\",\"message\":\"Something bad happened fetching\"}",
            ),
        },
    }
}

/// Maps the outcome of the insert to a response: 200 with the created
/// row; 400 with the fixed duplicate-title envelope when the error text
/// indicates a uniqueness violation; 500 echoing the raw detail
/// otherwise.
pub fn create_reply(outcome: &Result<Todo, DbError>) -> (r: HttpReply)
    ensures
        outcome is Ok ==> r.status == 200 && r.body@ == data_body(outcome->Ok_0),
        outcome is Err && is_duplicate_error(outcome->Err_0.message@) ==> r.status == 400
            && r.body@ == duplicate_body(),
        outcome is Err && !is_duplicate_error(outcome->Err_0.message@) ==> r.status == 500
            && r.body@ == error_body(outcome->Err_0.message@),
{
    match outcome {
        Ok(t) => ok_data_reply(t),
        Err(e) => {
            if classify_duplicate(e.message.as_str()) {
                HttpReply {
                    status: 400,
                    body: String::from_str(
                        "{\"status\":\"fail\",\"message\":\"Todo with that title already exists\"}",
                    ),
                }
            } else {
                let mut body = String::from_str("{\"status\":\"error\",\"message\":");
                append_json_string(&mut body, e.message.as_str());
                body.append("}");
                proof {
                    assert(body@ =~= error_body(e.message@));
                }
                HttpReply { status: 500, body }
            }
        },
    }
}

/// Maps the outcome of the select by identifier to a response: 200 with
/// the record, or 404 embedding the requested identifier — any failure,
/// not-found or otherwise, collapses to 404.
pub fn get_reply(id: u128, outcome: &Result<Todo, DbError>) -> (r: HttpReply)
    ensures
        outcome is Ok ==> r.status == 200 && r.body@ == data_body(outcome->Ok_0),
        outcome is Err ==> r.status == 404 && r.body@ == not_found_body(id),
{
    match outcome {
        Ok(t) => ok_data_reply(t),
        Err(_) => not_found_reply(id),
    }
}

/// Maps the affected row count of the delete to a response: an empty
/// 404 when nothing was deleted, an empty 204 otherwise.
pub fn delete_reply(rows_affected: u64) -> (r: HttpReply)
    ensures
        rows_affected == 0 ==> r.status == 404,
        rows_affected != 0 ==> r.status == 204,
        r.body@ == Seq::<char>::empty(),
{
    let body = String::new();
    if rows_affected == 0 {
        HttpReply { status: 404, body }
    } else {
        HttpReply { status: 204, body }
    }
}

/// The effective page number: the `page` parameter, defaulting to 1.
pub open spec fn spec_page(o: FilterOptions) -> int {
    if o.page is Some {
        o.page->0 as int
    } else {
        1
    }
}

/// The effective page size: the `limit` parameter, defaulting to 10.
pub open spec fn spec_limit(o: FilterOptions) -> int {
    if o.limit is Some {
        o.limit->0 as int
    } else {
        10
    }
}

/// The record the create request stores: the given fields, an omitted
/// category as the empty string (not absent), completed false, both
/// timestamps set to `now`.
pub open spec fn created_from(t: Todo, id: u128, body: CreateTodoSchema, now: i64) -> bool {
    &&& t.id == id
    &&& t.title@ == body.title@
    &&& t.content@ == body.content@
    &&& t.category@ == (if body.category is Some {
        body.category->0@
    } else {
        Seq::<char>::empty()
    })
    &&& t.completed == false
    &&& t.created_at == now
    &&& t.updated_at == now
}

/// The list handler: answers 200 with the page at `(page-1)*limit`,
/// `limit` records at most, in table order.
pub fn todo_list_handler(store: &TodoStore, opts: &FilterOptions) -> (r: HttpReply)
    requires
        store.wf(),
        spec_page(*opts) >= 1,
        (spec_page(*opts) - 1) * spec_limit(*opts) <= usize::MAX,
    ensures
        r.status == 200,
        r.body@ == list_ok_body(
            page_of(store@, (spec_page(*opts) - 1) * spec_limit(*opts), spec_limit(*opts)),
        ),
{
    let limit: usize = match opts.limit {
        Some(l) => l,
        None => 10,
    };
    let page: usize = match opts.page {
        Some(p) => p,
        None => 1,
    };
    let offset: usize = (page - 1) * limit;
    let outcome: Result<Vec<Todo>, DbError> = Ok(store.list(offset, limit));
    list_reply(&outcome)
}

/// The create handler: answers 200 with the stored record, or 400 with
/// the duplicate-title envelope leaving the table unchanged. The
/// identifier and the timestamps come from the storage layer and are
/// passed in; a generated identifier is fresh.
pub fn create_todo_handler(
    store: &mut TodoStore,
    body: &CreateTodoSchema,
    id: u128,
    now: i64,
) -> (r: HttpReply)
    requires
        old(store).wf(),
        !has_id(old(store)@, id),
    ensures
        final(store).wf(),
        has_title(old(store)@, body.title@) ==> r.status == 400 && r.body@ == duplicate_body()
            && final(store)@ == old(store)@,
        !has_title(old(store)@, body.title@) ==> {
            &&& r.status == 200
            &&& has_id(final(store)@, id)
            &&& created_from(record_of(final(store)@, id), id, *body, now)
            &&& r.body@ == data_body(record_of(final(store)@, id))
            &&& placed(old(store)@, final(store)@, record_of(final(store)@, id))
        },
{
    let category = match &body.category {
        Some(c) => c.clone(),
        None => String::new(),
    };
    let title = body.title.clone();
    let content = body.content.clone();
    match store.insert(id, title, content, category, now) {
        Some(t) => ok_data_reply(&t),
        None => HttpReply {
            status: 400,
            body: String::from_str(
                "{\"status\":\"fail\",\"message\":\"Todo with that title already exists\"}",
            ),
        },
    }
}

/// The get handler: answers 200 with the record carrying the requested
/// identifier, or 404 with an envelope embedding that identifier.
pub fn get_todo_handler(store: &TodoStore, id: u128) -> (r: HttpReply)
    requires
        store.wf(),
    ensures
        has_id(store@, id) ==> r.status == 200 && r.body@ == data_body(record_of(store@, id)),
        !has_id(store@, id) ==> r.status == 404 && r.body@ == not_found_body(id),
{
    match store.get(id) {
        Some(t) => ok_data_reply(&t),
        None => not_found_reply(id),
    }
}

/// The delete handler: answers an empty 204 after removing the record,
/// an empty 404 when no record carries the identifier — the table is
/// then unchanged.
pub fn delete_todo_handler(store: &mut TodoStore, id: u128) -> (r: HttpReply)
    requires
        old(store).wf(),
    ensures
        final(store).wf(),
        !has_id(final(store)@, id),
        has_id(old(store)@, id) ==> r.status == 204 && final(store)@ == old(store)@.remove(
            idx_of(old(store)@, id),
        ),
        !has_id(old(store)@, id) ==> r.status == 404 && final(store)@ == old(store)@,
        r.body@ == Seq::<char>::empty(),
{
    let rows = store.delete(id);
    delete_reply(rows)
}

/// The page law of the list select: for page >= 1 and limit >= 1, the
/// answered page holds at most `limit` records, the records from
/// position `(page-1)*limit` on, in ascending identifier order.
pub proof fn lemma_list_page(s: Seq<Todo>, page: int, limit: int)
    requires
        ids_sorted(s),
        page >= 1,
        limit >= 1,
    ensures
        page_of(s, (page - 1) * limit, limit).len() <= limit,
        forall|i: int|
            0 <= i < page_of(s, (page - 1) * limit, limit).len() ==> (#[trigger] page_of(
                s,
                (page - 1) * limit,
                limit,
            )[i]) == s[(page - 1) * limit + i],
        ids_sorted(page_of(s, (page - 1) * limit, limit)),
{
    assert((page - 1) * limit >= 0) by (nonlinear_arith)
        requires
            page >= 1,
            limit >= 1,
    ;
    let off = (page - 1) * limit;
    let pg = page_of(s, off, limit);
    assert(forall|i: int, j: int| 0 <= i < j < pg.len() ==> pg[i].id < pg[j].id);
}

/// The create-then-get law: a record just placed in the table is found
/// unchanged by a fetch of its identifier, so that fetch answers 200
/// with identical field values.
pub proof fn lemma_create_then_get(pre: Seq<Todo>, post: Seq<Todo>, t: Todo)
    requires
        !has_id(pre, t.id),
        placed(pre, post, t),
    ensures
        has_id(post, t.id),
        record_of(post, t.id) == t,
{
    let p = choose|p: int| 0 <= p <= pre.len() && post == pre.insert(p, t);
    pre.insert_ensures(p, t);
    assert(post[p] == t);
    assert(has_id(post, t.id));
    assert(forall|i: int| 0 <= i < p ==> post[i] == pre[i]);
    assert(forall|i: int| p < i < post.len() ==> post[i] == pre[i - 1]);
    assert(forall|i: int| 0 <= i < post.len() && i != p ==> post[i].id != t.id);
    let w = idx_of(post, t.id);
    assert(0 <= w < post.len() && post[w].id == t.id);
}

/// The delete-then-get law: once the delete of an identifier has been
/// answered 204, no record carries it, so a subsequent fetch answers
/// 404.
pub proof fn lemma_delete_then_get(pre: Seq<Todo>, post: Seq<Todo>, id: u128)
    requires
        ids_sorted(pre),
        has_id(pre, id),
        post == pre.remove(idx_of(pre, id)),
    ensures
        !has_id(post, id),
{
    let p = idx_of(pre, id);
    lemma_id_position_unique(pre, id);
    pre.remove_ensures(p);
    assert(forall|i: int| 0 <= i < p ==> post[i] == pre[i]);
    assert(forall|i: int| p <= i < post.len() ==> post[i] == pre[i + 1]);
    assert(forall|i: int| 0 <= i < post.len() ==> post[i].id != id);
}

} // verus!

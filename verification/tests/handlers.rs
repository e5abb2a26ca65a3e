use todo_api::reply::{
    create_reply, create_todo_handler, delete_reply, delete_todo_handler, get_reply,
    get_todo_handler, list_reply, todo_list_handler, DbError, HttpReply,
};
use todo_api::store::TodoStore;
use todo_api::todo::{CreateTodoSchema, FilterOptions, Todo};

fn schema(title: &str, content: &str, category: Option<&str>) -> CreateTodoSchema {
    CreateTodoSchema {
        title: title.to_string(),
        content: content.to_string(),
        category: category.map(|c| c.to_string()),
    }
}

fn filled_store() -> TodoStore {
    let mut st = TodoStore::new();
    for (i, title) in ["first", "second", "third"].iter().enumerate() {
        let r = create_todo_handler(
            &mut st,
            &schema(title, "body", Some("cat")),
            (i + 1) as u128,
            100 + i as i64,
        );
        assert_eq!(r.status, 200);
    }
    st
}

fn parsed(r: &HttpReply) -> serde_json::Value {
    serde_json::from_str(&r.body).expect("body must be valid JSON")
}

#[test]
fn list_respects_page_and_limit() {
    let st = filled_store();
    let r = todo_list_handler(
        &st,
        &FilterOptions {
            page: Some(2),
            limit: Some(1),
        },
    );
    assert_eq!(r.status, 200);
    let v = parsed(&r);
    assert_eq!(v["status"], serde_json::Value::String("success".to_string()));
    assert_eq!(v["results"], serde_json::Value::from(1u64));
    let todos = v["todos"].as_array().unwrap();
    assert_eq!(todos.len(), 1);
    assert_eq!(
        todos[0]["id"].as_str().unwrap(),
        "00000000-0000-0000-0000-000000000002"
    );
}

#[test]
fn list_is_ordered_by_ascending_id() {
    let mut st = TodoStore::new();
    // create in shuffled id order; the table orders by id
    for (id, title) in [(3u128, "c"), (1u128, "a"), (2u128, "b")] {
        let r = create_todo_handler(&mut st, &schema(title, "x", None), id, 0);
        assert_eq!(r.status, 200);
    }
    let r = todo_list_handler(
        &st,
        &FilterOptions {
            page: None,
            limit: None,
        },
    );
    let v = parsed(&r);
    let ids: Vec<&str> = v["todos"]
        .as_array()
        .unwrap()
        .iter()
        .map(|t| t["id"].as_str().unwrap())
        .collect();
    assert_eq!(
        ids,
        vec![
            "00000000-0000-0000-0000-000000000001",
            "00000000-0000-0000-0000-000000000002",
            "00000000-0000-0000-0000-000000000003"
        ]
    );
}

#[test]
fn list_beyond_the_end_is_empty() {
    let st = filled_store();
    let r = todo_list_handler(
        &st,
        &FilterOptions {
            page: Some(5),
            limit: Some(10),
        },
    );
    assert_eq!(r.status, 200);
    let v = parsed(&r);
    assert_eq!(v["results"], serde_json::Value::from(0u64));
    assert_eq!(v["todos"].as_array().unwrap().len(), 0);
}

#[test]
fn create_duplicate_title_is_400_and_no_partial_write() {
    let mut st = filled_store();
    let before = st.count();
    let r = create_todo_handler(&mut st, &schema("second", "other body", None), 99, 999);
    assert_eq!(r.status, 400);
    assert_eq!(
        r.body,
        "{\"status\":\"fail\",\"message\":\"Todo with that title already exists\"}"
    );
    assert_eq!(st.count(), before);
    // the original record is unchanged
    let g = get_todo_handler(&st, 2);
    assert_eq!(g.status, 200);
    let v = parsed(&g);
    assert_eq!(v["data"]["todo"]["content"].as_str().unwrap(), "body");
    assert_eq!(v["data"]["todo"]["created_at"].as_i64().unwrap(), 101);
}

#[test]
fn create_then_get_returns_identical_fields() {
    let mut st = TodoStore::new();
    let c = create_todo_handler(&mut st, &schema("t", "c", Some("k")), 7, 42);
    assert_eq!(c.status, 200);
    let g = get_todo_handler(&st, 7);
    assert_eq!(g.status, 200);
    assert_eq!(parsed(&c)["data"]["todo"], parsed(&g)["data"]["todo"]);
    let v = parsed(&g);
    assert_eq!(v["data"]["todo"]["title"].as_str().unwrap(), "t");
    assert_eq!(v["data"]["todo"]["content"].as_str().unwrap(), "c");
    assert_eq!(v["data"]["todo"]["category"].as_str().unwrap(), "k");
    assert_eq!(v["data"]["todo"]["completed"].as_bool().unwrap(), false);
    assert_eq!(v["data"]["todo"]["created_at"].as_i64().unwrap(), 42);
    assert_eq!(v["data"]["todo"]["updated_at"].as_i64().unwrap(), 42);
}

#[test]
fn get_missing_is_404_with_the_identifier_in_the_message() {
    let st = TodoStore::new();
    let r = get_todo_handler(&st, 7);
    assert_eq!(r.status, 404);
    assert_eq!(
        r.body,
        "{\"status\":\"fail\",\"message\":\"Todo with ID: 00000000-0000-0000-0000-000000000007 not found\"}"
    );
}

#[test]
fn identifier_text_is_hyphenated_lower_hex() {
    let mut st = TodoStore::new();
    let id: u128 = 0x00112233_4455_6677_8899_aabbccddeeff;
    let c = create_todo_handler(&mut st, &schema("t", "c", None), id, 0);
    let v = parsed(&c);
    assert_eq!(
        v["data"]["todo"]["id"].as_str().unwrap(),
        "00112233-4455-6677-8899-aabbccddeeff"
    );
}

#[test]
fn delete_then_get_is_404() {
    let mut st = filled_store();
    let d = delete_todo_handler(&mut st, 2);
    assert_eq!(d.status, 204);
    assert_eq!(d.body, "");
    let g = get_todo_handler(&st, 2);
    assert_eq!(g.status, 404);
}

#[test]
fn delete_missing_is_404_and_keeps_the_row_count() {
    let mut st = filled_store();
    let before = st.count();
    let d = delete_todo_handler(&mut st, 99);
    assert_eq!(d.status, 404);
    assert_eq!(d.body, "");
    assert_eq!(st.count(), before);
}

#[test]
fn omitted_category_is_stored_as_empty_string() {
    let mut st = TodoStore::new();
    let c = create_todo_handler(&mut st, &schema("t", "c", None), 1, 0);
    let v = parsed(&c);
    let cat = &v["data"]["todo"]["category"];
    assert!(cat.is_string());
    assert_eq!(cat.as_str().unwrap(), "");
}

#[test]
fn create_reply_classifies_the_duplicate_error_text() {
    let err = DbError {
        message: "error returned from database: duplicate key value violates unique constraint \"todos_title_key\"".to_string(),
    };
    let r = create_reply(&Err(err));
    assert_eq!(r.status, 400);
    assert_eq!(
        r.body,
        "{\"status\":\"fail\",\"message\":\"Todo with that title already exists\"}"
    );
}

#[test]
fn create_reply_echoes_other_error_detail_as_500() {
    let err = DbError {
        message: "connection reset by \"peer\"".to_string(),
    };
    let r = create_reply(&Err(err));
    assert_eq!(r.status, 500);
    let v = parsed(&r);
    assert_eq!(v["status"].as_str().unwrap(), "error");
    assert_eq!(v["message"].as_str().unwrap(), "connection reset by \"peer\"");
}

#[test]
fn list_reply_maps_a_storage_failure_to_500() {
    let err = DbError {
        message: "whatever".to_string(),
    };
    let r = list_reply(&Err(err));
    assert_eq!(r.status, 500);
    assert_eq!(
        r.body,
        "{\"status\":\"error\",\"message\":\"Something bad happened fetching\"}"
    );
}

#[test]
fn get_reply_collapses_any_failure_to_404() {
    let err = DbError {
        message: "no rows returned".to_string(),
    };
    let r = get_reply(3, &Err(err));
    assert_eq!(r.status, 404);
    assert_eq!(
        r.body,
        "{\"status\":\"fail\",\"message\":\"Todo with ID: 00000000-0000-0000-0000-000000000003 not found\"}"
    );
}

#[test]
fn get_reply_wraps_a_found_row_as_200() {
    let t = Todo {
        id: 3,
        title: "t".to_string(),
        content: "c".to_string(),
        category: "".to_string(),
        completed: true,
        created_at: 1,
        updated_at: 2,
    };
    let r = get_reply(3, &Ok(t));
    assert_eq!(r.status, 200);
    let v = parsed(&r);
    assert_eq!(v["data"]["todo"]["completed"].as_bool().unwrap(), true);
}

#[test]
fn delete_reply_maps_row_counts() {
    let r0 = delete_reply(0);
    assert_eq!(r0.status, 404);
    assert_eq!(r0.body, "");
    let r1 = delete_reply(1);
    assert_eq!(r1.status, 204);
    assert_eq!(r1.body, "");
}

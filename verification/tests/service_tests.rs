use users_service::json::{escape_json, user_json, users_json, uuid_str};
use users_service::service::{insert_user_sql, plan_create, select_users_sql, CreatePlan, Store};
use users_service::user::{CreateUser, User};

fn create_body(username: &str, password: &str) -> Option<CreateUser> {
    Some(CreateUser { username: username.to_string(), password: password.to_string() })
}

#[test]
fn empty_list() {
    let store = Store::new();
    let res = store.list();
    assert_eq!(res.status, 200);
    assert_eq!(res.content_type.as_deref(), Some("application/json"));
    assert_eq!(res.body, "[]");
}

#[test]
fn creating_a_user() {
    let mut store = Store::new();

    let res = store.list();
    assert_eq!(res.status, 200);
    assert_eq!(res.body, "[]");

    let res = store.create(create_body("aygiz", "123"));
    assert_eq!(res.status, 201);
    assert_eq!(res.body, "");

    let res = store.list();
    assert_eq!(res.status, 200);
    assert!(res.body.contains("\"username\":\"aygiz\""));
}

#[test]
fn malformed_create() {
    let mut store = Store::new();
    let res = store.create(None);
    assert_eq!(res.status, 400);
    assert_eq!(res.body, "");
    assert_eq!(store.list().body, "[]");
}

#[test]
fn duplicate_id_is_refused() {
    let mut store = Store::new();
    let res = store.create_with_id(create_body("first", "p1"), 7);
    assert_eq!(res.status, 201);
    let res = store.create_with_id(create_body("second", "p2"), 7);
    assert_eq!(res.status, 500);
    let body = store.list().body;
    assert!(body.contains("\"username\":\"first\""));
    assert!(!body.contains("\"username\":\"second\""));
}

#[test]
fn password_is_never_listed() {
    let mut store = Store::new();
    let res = store.create(create_body("carol", "hunter2"));
    assert_eq!(res.status, 201);
    let body = store.list().body;
    assert!(body.contains("\"username\":\"carol\""));
    assert!(!body.contains("hunter2"));
    assert!(!body.contains("password"));
}

#[test]
fn plan_assigns_version_4_ids() {
    match plan_create(create_body("dave", "pw")) {
        CreatePlan::Insert { id, username } => {
            assert_eq!(username, "dave");
            assert_eq!((id >> 76) & 0xf, 4);
            assert_eq!((id >> 62) & 3, 2);
        }
        CreatePlan::Reject => panic!("a parsed body must be planned as an insert"),
    }
    assert!(matches!(plan_create(None), CreatePlan::Reject));
}

#[test]
fn uuid_rendering() {
    assert_eq!(uuid_str(0), "00000000-0000-0000-0000-000000000000");
    assert_eq!(
        uuid_str(0x936DA01F9ABD4D9D80C702AF85C822A8),
        "936da01f-9abd-4d9d-80c7-02af85c822a8"
    );
}

#[test]
fn json_escaping() {
    assert_eq!(escape_json("plain"), "plain");
    assert_eq!(escape_json("a\"b\\c"), "a\\\"b\\\\c");
    assert_eq!(escape_json("\u{8}\u{c}\n\r\t"), "\\b\\f\\n\\r\\t");
    assert_eq!(escape_json("\u{1}\u{1f}"), "\\u0001\\u001f");
    assert_eq!(escape_json("café"), "café");
}

#[test]
fn row_rendering() {
    let row = User { id: 0x936DA01F9ABD4D9D80C702AF85C822A8, username: "aygiz".to_string() };
    assert_eq!(
        user_json(&row),
        "{\"id\":\"936da01f-9abd-4d9d-80c7-02af85c822a8\",\"username\":\"aygiz\"}"
    );
    let rows = vec![
        User { id: 0, username: "a".to_string() },
        User { id: 1, username: "b\"c".to_string() },
    ];
    assert_eq!(
        users_json(&rows),
        "[{\"id\":\"00000000-0000-0000-0000-000000000000\",\"username\":\"a\"},{\"id\":\"00000000-0000-0000-0000-000000000001\",\"username\":\"b\\\"c\"}]"
    );
}

#[test]
fn handler_statements() {
    assert_eq!(select_users_sql(), "select id, username from users");
    assert_eq!(insert_user_sql(), "insert into users (id, username) values ($1, $2)");
}

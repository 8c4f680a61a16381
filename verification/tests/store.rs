use memory_store::api::{check_response, Method, Reply, Request};
use memory_store::json::{Json, Number};
use memory_store::models::{MemoryEntry, MemoryType};
use memory_store::schema::MemoryMeta;
use memory_store::score::Score;
use memory_store::store::testutil::MockMemoryStore;
use memory_store::store::{GitHubIssuesStore, DELETE_MUTATION};
use memory_store::{MemoryError, Result};

fn make_entry() -> MemoryEntry {
    MemoryEntry::builder("The user prefers Rust over C++.", MemoryType::Semantic)
        .user_id("alice")
        .importance(Score::from_bits(0.8f32.to_bits()))
        .confidence(Score::from_bits(0.9f32.to_bits()))
        .entities(vec!["Rust".to_owned(), "C++".to_owned()])
        .tags(vec!["preferences".to_owned()])
        .build(|s: Score| s.bits.to_string())
        .unwrap()
}

#[test]
fn create_assigns_issue_number() {
    let mut store = MockMemoryStore::new();
    let mut entry = make_entry();
    assert!(entry.issue_number.is_none());
    store.create(&mut entry).unwrap();
    assert!(entry.issue_number.is_some(), "issue_number should be set after create");
}

#[test]
fn get_returns_none_for_nonexistent() {
    let store = MockMemoryStore::new();
    let result = store.get(9999).unwrap();
    assert!(result.is_none(), "should return None for unknown issue");
}

#[test]
fn get_returns_stored_entry_after_create() {
    let mut store = MockMemoryStore::new();
    let mut entry = make_entry();
    store.create(&mut entry).unwrap();
    let n = entry.issue_number.unwrap();
    let retrieved = store.get(n).unwrap();
    assert!(retrieved.is_some(), "should return stored entry");
    assert_eq!(retrieved.unwrap().memory_id, entry.memory_id);
}

#[test]
fn update_reflects_changes_on_get() {
    let mut store = MockMemoryStore::new();
    let mut entry = make_entry();
    store.create(&mut entry).unwrap();
    let n = entry.issue_number.unwrap();

    entry.content = "Updated content.".to_owned();
    store.update(&entry).unwrap();

    let retrieved = store.get(n).unwrap().unwrap();
    assert_eq!(retrieved.content, "Updated content.");
}

#[test]
fn archive_marks_issue_as_archived() {
    let mut store = MockMemoryStore::new();
    let mut entry = make_entry();
    store.create(&mut entry).unwrap();
    let n = entry.issue_number.unwrap();

    assert!(!store.is_archived(n));
    store.archive(n, "evicted: low score").unwrap();
    assert!(store.is_archived(n), "issue should be archived");
}

#[test]
fn delete_removes_entry() {
    let mut store = MockMemoryStore::new();
    let mut entry = make_entry();
    store.create(&mut entry).unwrap();
    let n = entry.issue_number.unwrap();

    store.delete(n).unwrap();
    let result = store.get(n).unwrap();
    assert!(result.is_none(), "get after delete should return None");
}

#[test]
fn add_comment_does_not_error() {
    let mut store = MockMemoryStore::new();
    let mut entry = make_entry();
    store.create(&mut entry).unwrap();
    let n = entry.issue_number.unwrap();

    store.add_comment(n, "Access event logged.").unwrap();
    let comments = store.comments_for(n);
    assert!(!comments.is_empty(), "comment should be stored");
    store.add_comment(n, "Another.").unwrap();
    assert_eq!(store.comments_for(n), vec!["Access event logged.", "Another."]);
    assert!(store.comments_for(n + 1).is_empty());
}

#[test]
fn set_labels_updates_labels() {
    let mut store = MockMemoryStore::new();
    let mut entry = make_entry();
    store.create(&mut entry).unwrap();
    let n = entry.issue_number.unwrap();

    let new_labels = vec!["type:semantic".to_owned(), "tier:warm".to_owned()];
    store.set_labels(n, &new_labels).unwrap();

    let stored = store.labels_for(n);
    assert_eq!(stored, new_labels);
}

#[test]
fn create_assigns_monotonically_increasing_numbers() {
    let mut store = MockMemoryStore::new();
    let mut e1 = make_entry();
    let mut e2 = make_entry();
    store.create(&mut e1).unwrap();
    store.create(&mut e2).unwrap();
    let n1 = e1.issue_number.unwrap();
    let n2 = e2.issue_number.unwrap();
    assert!(n2 > n1, "issue numbers should be monotonically increasing");
}

#[test]
fn numbers_start_at_one_and_are_not_reused() {
    let mut store = MockMemoryStore::default();
    let mut first = make_entry();
    store.create(&mut first).unwrap();
    assert_eq!(first.issue_number, Some(1));
    store.delete(1).unwrap();
    let mut second = make_entry();
    store.create(&mut second).unwrap();
    assert_eq!(second.issue_number, Some(2));
    assert!(store.get(1).unwrap().is_none());
}

#[test]
fn update_is_refused_for_an_entry_without_a_number() {
    let mut store = MockMemoryStore::new();
    assert_eq!(
        store.update(&make_entry()).unwrap_err().to_string(),
        "Invalid input: entry has no issue_number; call create first"
    );
}

// --- GitHubIssuesStore ---

fn hub() -> GitHubIssuesStore {
    GitHubIssuesStore::new("owner/repo", "token")
}

fn reply(status: u16, text: &str) -> Reply {
    Reply { status, text: text.to_owned() }
}

fn show(json: &Json) -> String {
    match json {
        Json::Null => "null".to_owned(),
        Json::Bool(b) => b.to_string(),
        Json::Number(Number::Unsigned(n)) => n.to_string(),
        Json::Number(n) => format!("{n:?}"),
        Json::Text(s) => format!("{s:?}"),
        Json::Array(items) => {
            format!("[{}]", items.iter().map(show).collect::<Vec<_>>().join(","))
        }
        Json::Object(members) => {
            let parts: Vec<String> =
                members.iter().map(|(k, v)| format!("{k:?}:{}", show(v))).collect();
            format!("{{{}}}", parts.join(","))
        }
    }
}

fn told(r: &Request) -> String {
    let body = r.body.as_ref().map_or("-".to_owned(), show);
    format!("{:?} {} {:?} {body}", r.method, r.url, r.params)
}

fn fixed(_: &MemoryMeta) -> String {
    "{json}".to_owned()
}

const ISSUE: &str = "https://api.github.com/repos/owner/repo/issues/7";

#[test]
fn create_posts_title_body_and_labels() {
    let mut entry = make_entry();
    entry.content = "Hi".to_owned();
    let ask = hub().create(&entry, fixed);
    assert_eq!(ask.method, Method::Post);
    assert_eq!(
        told(&ask),
        "Post https://api.github.com/repos/owner/repo/issues [] {\"title\":\"[semantic] Hi\",\
         \"body\":\"Hi\\n\\n**Entities:** Rust, C++\\n**Tags:** preferences\\n\\n\
         <!-- MEMORY_META\\n{json}\\n-->\",\
         \"labels\":[\"type:semantic\",\"tier:warm\",\"status:active\",\"user:alice\"]}"
    );
    assert_eq!(hub().token(), "token");
    assert_eq!(hub().repo(), "owner/repo");
}

#[test]
fn create_takes_the_number_from_the_reply() {
    let mut entry = make_entry();
    hub().finish_create(&mut entry, &reply(201, r#"{"number": 12}"#)).unwrap();
    assert_eq!(entry.issue_number, Some(12));
    let mut entry = make_entry();
    let error = |entry: &mut MemoryEntry, r: Reply| {
        hub().finish_create(entry, &r).unwrap_err().to_string()
    };
    assert_eq!(
        error(&mut entry, reply(201, r#"{"number": -1}"#)),
        "Invalid input: GitHub response missing 'number'"
    );
    assert_eq!(
        error(&mut entry, reply(201, "[]")),
        "Invalid input: GitHub response missing 'number'"
    );
    assert_eq!(error(&mut entry, reply(200, "?")), "HTTP error: error decoding response body");
    assert_eq!(
        error(&mut entry, reply(422, r#"{"message": "Validation failed"}"#)),
        "GitHub API error 422: Validation failed"
    );
    assert_eq!(entry.issue_number, None);
}

fn decode(text: &str) -> Result<MemoryMeta> {
    serde_json::from_str::<serde_json::Value>(text)?;
    Ok(MemoryMeta::of(&make_entry()))
}

#[test]
fn get_reads_the_entry_out_of_the_issue() {
    assert_eq!(told(&hub().get(7)), format!("Get {ISSUE} [] -"));
    let text = r#"{"title":"[semantic] x","body":"x\n\n<!-- MEMORY_META\n{}\n-->"}"#;
    let found = hub().finish_get(7, &reply(200, text), decode).unwrap().unwrap();
    assert_eq!(found.content, "x");
    assert_eq!(found.issue_number, Some(7));
    assert_eq!(found.entities, vec!["Rust", "C++"]);
}

#[test]
fn what_is_written_is_read_back() {
    let mut entry = make_entry();
    entry.content = "First line\n\n- a list\n- of \"things\"".to_owned();
    let ask = hub().create(&entry, |_| "{}".to_owned());
    let body = match ask.body.as_ref().unwrap().get("body") {
        Some(Json::Text(body)) => body.clone(),
        other => panic!("no body: {other:?}"),
    };
    let text = format!("{{\"body\":{}}}", serde_json::Value::from(body));
    let read = hub().finish_get(7, &reply(200, &text), |json: &str| {
        assert_eq!(json, "{}");
        Ok(MemoryMeta::of(&entry))
    });
    let read = read.unwrap().unwrap();
    entry.issue_number = Some(7);
    assert_eq!(format!("{read:?}"), format!("{entry:?}"));
}

#[test]
fn get_finds_nothing_where_nothing_is() {
    for status in [404, 410] {
        assert!(hub().finish_get(7, &reply(status, "x"), decode).unwrap().is_none());
    }
    let error = |r: Reply| hub().finish_get(7, &r, decode).unwrap_err();
    assert_eq!(error(reply(500, "x")).to_string(), "GitHub API error 500: unknown error");
    assert_eq!(error(reply(200, "x")).to_string(), "HTTP error: error decoding response body");
    assert_eq!(
        error(reply(200, r#"{"body": null}"#)).to_string(),
        "Invalid input: no MEMORY_META block found"
    );
    let broken = r#"{"body":"<!-- MEMORY_META\n{\n-->"}"#;
    assert!(matches!(error(reply(200, broken)), MemoryError::Parse(_)));
}

#[test]
fn update_patches_the_issue() {
    let mut entry = make_entry();
    assert_eq!(
        hub().update(&entry, fixed).unwrap_err().to_string(),
        "Invalid input: entry has no issue_number; call create first"
    );
    entry.issue_number = Some(7);
    let ask = hub().update(&entry, fixed).unwrap();
    assert_eq!(ask.method, Method::Patch);
    assert_eq!(ask.url, ISSUE);
    let created = hub().create(&entry, fixed);
    assert_eq!(show(ask.body.as_ref().unwrap()), show(created.body.as_ref().unwrap()));
}

#[test]
fn archive_closes_the_issue_and_records_the_reason() {
    assert_eq!(told(&hub().archive(7)), format!("Patch {ISSUE} [] {{\"state\":\"closed\"}}"));
    let comment = hub().after_close(7, "old", &reply(200, "{}")).unwrap();
    assert_eq!(
        told(&comment),
        format!("Post {ISSUE}/comments [] {{\"body\":\"Archived: old\"}}")
    );
    let failed = hub().after_close(7, "old", &reply(403, r#"{"message":"no"}"#));
    assert_eq!(failed.unwrap_err().to_string(), "GitHub API error 403: no");
}

#[test]
fn delete_goes_by_the_node_identifier() {
    assert_eq!(told(&hub().delete(7)), format!("Get {ISSUE} [] -"));
    let ask = hub().after_fetch(&reply(200, r#"{"node_id":"N1"}"#)).unwrap();
    assert_eq!(
        told(&ask),
        format!(
            "Post https://api.github.com/graphql [] \
             {{\"query\":{DELETE_MUTATION:?},\"variables\":{{\"issueId\":\"N1\"}}}}"
        )
    );
    assert!(DELETE_MUTATION.contains("deleteIssue(input: { issueId: $issueId })"));
    let error = |r: Reply| hub().after_fetch(&r).unwrap_err().to_string();
    assert_eq!(error(reply(200, "{}")), "Invalid input: GitHub response missing 'node_id'");
    assert_eq!(error(reply(404, "{}")), "GitHub API error 404: unknown error");
    assert_eq!(error(reply(200, "")), "HTTP error: error decoding response body");
}

#[test]
fn deletion_may_fail_in_the_body() {
    assert!(hub().finish_delete(&reply(200, r#"{"data":{}}"#)).is_ok());
    let error = |text: &str| hub().finish_delete(&reply(200, text)).unwrap_err().to_string();
    assert_eq!(
        error(r#"{"errors":[{"message":"no admin"},{"message":"x"}]}"#),
        "GitHub API error 200: no admin"
    );
    assert_eq!(error(r#"{"errors":[]}"#), "GitHub API error 200: GraphQL error");
    assert_eq!(error(r#"{"errors":"bad"}"#), "GitHub API error 200: GraphQL error");
    assert_eq!(error("x"), "HTTP error: error decoding response body");
    let refused = hub().finish_delete(&reply(502, r#"{"message":"bad gateway"}"#));
    assert_eq!(refused.unwrap_err().to_string(), "GitHub API error 502: bad gateway");
}

#[test]
fn comments_and_labels_are_sent() {
    assert_eq!(
        told(&hub().add_comment(7, "hi")),
        format!("Post {ISSUE}/comments [] {{\"body\":\"hi\"}}")
    );
    assert_eq!(
        told(&hub().set_labels(7, &vec!["a".to_owned(), "b".to_owned()])),
        format!("Put {ISSUE}/labels [] {{\"labels\":[\"a\",\"b\"]}}")
    );
}

#[test]
fn missing_labels_are_created() {
    assert_eq!(
        told(&hub().list_labels()),
        "Get https://api.github.com/repos/owner/repo/labels?per_page=100 [] -"
    );
    let labels: Vec<String> = ["a", "b", "c"].iter().map(|s| s.to_string()).collect();
    let listed = r#"[{"name":"b"},{"nome":"a"},7]"#;
    let asks = hub().ensure_labels(&labels, &reply(200, listed)).unwrap();
    let shown: Vec<String> = asks.iter().map(told).collect();
    assert_eq!(
        shown,
        vec![
            "Post https://api.github.com/repos/owner/repo/labels [] \
             {\"name\":\"a\",\"color\":\"ededed\"}",
            "Post https://api.github.com/repos/owner/repo/labels [] \
             {\"name\":\"c\",\"color\":\"ededed\"}",
        ]
    );
    let all = r#"[{"name":"c"},{"name":"b"},{"name":"a"}]"#;
    assert!(hub().ensure_labels(&labels, &reply(200, all)).unwrap().is_empty());
    let error = |r: Reply| hub().ensure_labels(&labels, &r).unwrap_err().to_string();
    assert_eq!(error(reply(200, "{}")), "HTTP error: error decoding response body");
    assert_eq!(error(reply(401, "{}")), "GitHub API error 401: unknown error");
}

#[test]
fn a_label_that_exists_counts_as_created() {
    assert!(hub().after_new_label(&reply(201, "")).is_ok());
    assert!(hub().after_new_label(&reply(422, "")).is_ok());
    assert!(hub().after_new_label(&reply(500, "")).is_err());
}

#[test]
fn only_the_two_hundreds_are_a_success() {
    for status in [200, 201, 204, 299] {
        assert!(check_response(&reply(status, "")).is_ok());
    }
    for status in [100, 199, 300, 304, 404, 500] {
        assert!(check_response(&reply(status, "")).is_err());
    }
    let odd = check_response(&reply(400, r#"{"message": 5}"#));
    assert_eq!(odd.unwrap_err().to_string(), "GitHub API error 400: unknown error");
}

//! Laws of what is sent to GitHub and of what is read in its answers.

use vstd::prelude::*;

use crate::api::{
    api_failure, decode_failure, failure_message, items_in, plain_request, request_views, Method,
    Reply, Request, RequestView,
};
use crate::error::{json_error_message, MemoryError, Result};
use crate::json::{
    json_in, json_views, member, member_views, optional_json, text_array, Json,
    JsonView, Number,
};
use crate::labels::{
    entry_labels, label_of_agent, label_of_tier, label_of_type, label_of_user, BOOTSTRAP_LABELS,
};
use crate::laws::{lemma_selects_none, lemma_selects_one_more, selects};
use crate::models::EntryView;
use crate::schema::{body_text, title_text};
use crate::store::{
    close_ask, comment_ask, create_ask, delete_ask, fetch_ask, graphql_message, has_label,
    issue_part_url, issue_payload, issue_url, label_asks, labels_ask, new_label_ask, node_id_in,
    repo_url, text_or_empty, update_ask, DELETE_MUTATION,
};
use crate::text::decimal;

verus! {

/// The member of an object under a key is the first one that has the key, and there is one
/// exactly when some member has it.
pub proof fn law_member(members: Seq<(Seq<char>, JsonView)>, key: Seq<char>)
    ensures
        member(members, key) is None <==> forall|i: int|
            0 <= i < members.len() ==> (#[trigger] members[i]).0 != key,
        forall|i: int|
            0 <= i < members.len() && (#[trigger] members[i]).0 == key && (forall|j: int|
                0 <= j < i ==> (#[trigger] members[j]).0 != key) ==> member(members, key) == Some(
                members[i].1,
            ),
    decreases members.len(),
{
    if members.len() > 0 && members[0].0 != key {
        let rest = members.skip(1);
        law_member(rest, key);
        assert forall|i: int|
            0 <= i < members.len() && (#[trigger] members[i]).0 == key && (forall|j: int|
                0 <= j < i ==> (#[trigger] members[j]).0 != key) implies member(members, key)
            == Some(members[i].1) by {
            assert(rest[i - 1] == members[i]);
            assert forall|j: int| 0 <= j < i - 1 implies (#[trigger] rest[j]).0 != key by {
                assert(rest[j] == members[j + 1]);
            }
        }
        if member(members, key) is None {
            assert forall|i: int| 0 <= i < members.len() implies (#[trigger] members[i]).0
                != key by {
                if i > 0 {
                    assert(rest[i - 1] == members[i]);
                }
            }
        } else if forall|i: int| 0 <= i < members.len() ==> (#[trigger] members[i]).0 != key {
            assert forall|i: int| 0 <= i < rest.len() implies (#[trigger] rest[i]).0 != key by {
                assert(rest[i] == members[i + 1]);
            }
        }
    }
}

/// Only an object has fields, and they are its members. Only a text is read as a text, only
/// an integer that is not negative as a number of an issue, and only an array has items.
pub proof fn law_json_reading(j: JsonView, key: Seq<char>)
    ensures
        j matches JsonView::Object(members) ==> j.field(key) == member(members, key),
        !(j is Object) ==> j.field(key) is None,
        j matches JsonView::Text(s) ==> j.text() == Some(s),
        !(j is Text) ==> j.text() is None,
        j matches JsonView::Array(items) ==> j.items() == Some(items),
        !(j is Array) ==> j.items() is None,
        j matches JsonView::Number(n) ==> j.numeric() == Some(n) && match n {
            Number::Unsigned(u) => j.unsigned() == Some(u),
            _ => j.unsigned() is None,
        },
        !(j is Number) ==> j.numeric() is None && j.unsigned() is None,
        j.field(key) matches Some(v) ==> j.text_field(key) == v.text(),
        j.field(key) is None ==> j.text_field(key) is None && text_or_empty(j, key).len() == 0,
        j.text_field(key) matches Some(t) ==> text_or_empty(j, key) == t,
        j.text_field(key) is None ==> text_or_empty(j, key).len() == 0,
{
}

/// What a JSON value holds: the same kind of value, its text, its items and its members with
/// their keys, in their order.
pub proof fn law_json_holds(j: Json)
    ensures
        j is Null ==> j@ is Null,
        j matches Json::Bool(b) ==> j@ == JsonView::Bool(b),
        j matches Json::Number(n) ==> j@ == JsonView::Number(n),
        j matches Json::Text(s) ==> j@ == JsonView::Text(s@),
        j matches Json::Array(items) ==> j@ is Array && j@->Array_0.len() == items@.len()
            && forall|i: int|
            0 <= i < items@.len() ==> #[trigger] j@->Array_0[i] == items@[i]@,
        j matches Json::Object(members) ==> j@ is Object && j@->Object_0.len() == members@.len()
            && forall|i: int|
            0 <= i < members@.len() ==> #[trigger] j@->Object_0[i] == (
                members@[i].0@,
                members@[i].1@,
            ),
{
}

/// Lists of values hold what each of the values holds.
pub proof fn law_json_lists(v: Seq<Json>, members: Seq<(String, Json)>, t: Seq<Seq<char>>)
    ensures
        json_views(v).len() == v.len(),
        forall|i: int| 0 <= i < v.len() ==> #[trigger] json_views(v)[i] == v[i]@,
        member_views(members).len() == members.len(),
        forall|i: int|
            0 <= i < members.len() ==> #[trigger] member_views(members)[i] == (
                members[i].0@,
                members[i].1@,
            ),
        text_array(t) is Array,
        text_array(t)->Array_0.len() == t.len(),
        forall|i: int|
            0 <= i < t.len() ==> #[trigger] text_array(t)->Array_0[i] == JsonView::Text(t[i]),
{
}

/// An optional value that is borrowed holds what the value holds.
pub proof fn law_optional_json(j: Option<&Json>)
    ensures
        j matches Some(v) ==> optional_json(j) == Some(v@),
        j is None ==> optional_json(j) is None,
{
}

/// The text of each error.
pub proof fn law_error_texts(e: MemoryError)
    ensures
        e matches MemoryError::GithubApi { status, message } ==> e.text() == "GitHub API error "@
            + decimal(status as nat) + ": "@ + message@,
        e matches MemoryError::RateLimit { retry_after_secs } ==> e.text()
            == "Rate limited — retry after "@ + decimal(retry_after_secs as nat) + "s"@,
        e matches MemoryError::Parse(p) ==> e.text() == "Parse error: "@ + json_error_message(p),
        e matches MemoryError::Http(message) ==> e.text() == "HTTP error: "@ + message@,
        e matches MemoryError::NotFound { issue_number } ==> e.text()
            == "Memory entry not found: issue #"@ + decimal(issue_number as nat),
        e matches MemoryError::InvalidInput(message) ==> e.text() == "Invalid input: "@ + message@,
{
}

/// What a request holds is what its fields hold.
pub proof fn law_request_holds_its_fields(r: Request)
    ensures
        r@.method == r.method,
        r@.url == r.url@,
        r@.params.len() == r.params@.len(),
        forall|i: int|
            0 <= i < r.params@.len() ==> #[trigger] r@.params[i] == (
                r.params@[i].0@,
                r.params@[i].1@,
            ),
        r.body is None ==> r@.body is None,
        r.body matches Some(j) ==> r@.body == Some(j@),
{
}

/// What a list of requests holds is what each of them holds.
pub proof fn law_requests_hold_each(v: Seq<Request>)
    ensures
        request_views(v).len() == v.len(),
        forall|i: int| 0 <= i < v.len() ==> #[trigger] request_views(v)[i] == v[i]@,
{
}

/// The statuses from 200 to 299 tell of success.
pub proof fn law_success(reply: Reply)
    ensures
        reply.succeeded() <==> reply.status >= 200 && reply.status <= 299,
{
}

/// How a failed call fails: with the status and the message of the answer, or because the
/// answer could not be read.
pub proof fn law_failures<T>(r: Result<T>, status: u16, message: Seq<char>)
    ensures
        api_failure(r, status, message) <==> r is Err && r->Err_0 is GithubApi
            && r->Err_0->GithubApi_status == status && r->Err_0->GithubApi_message@ == message,
        decode_failure(r) <==> r is Err && r->Err_0 is Http && r->Err_0->Http_0@
            == "error decoding response body"@,
{
}

/// The message of a failure is the text under `message` in the answer, where the answer is
/// JSON that has one; the items of an answer are those of its array.
pub proof fn law_messages(text: Seq<char>)
    ensures
        json_in(text) matches Some(j) ==> {
            &&& j.text_field("message"@) matches Some(m) ==> failure_message(text) == m
            &&& j.text_field("message"@) is None ==> failure_message(text) == "unknown error"@
            &&& items_in(text) == j.items()
            &&& node_id_in(text) == j.text_field("node_id"@)
        },
        json_in(text) is None ==> failure_message(text) == "unknown error"@ && items_in(
            text,
        ) is None && node_id_in(text) is None,
{
}

/// The message of a failed mutation is that of the first error in the answer.
pub proof fn law_graphql_message(errors: JsonView)
    ensures
        errors.items() matches Some(items) && items.len() > 0 && items[0].text_field("message"@)
            is Some ==> Some(graphql_message(errors)) == errors.items()->0[0].text_field(
            "message"@,
        ),
        !(errors.items() is Some && errors.items()->0.len() > 0 && errors.items()->0[0].text_field(
            "message"@,
        ) is Some) ==> graphql_message(errors) == "GraphQL error"@,
{
}

/// Addresses below the repository, of an issue, and of what belongs to an issue.
pub proof fn law_addresses(repo: Seq<char>, rest: Seq<char>, number: u64)
    ensures
        repo_url(repo, rest) == "https://api.github.com/repos/"@ + repo + rest,
        issue_url(repo, number) == "https://api.github.com/repos/"@ + repo + "/issues/"@ + decimal(
            number as nat,
        ),
        issue_part_url(repo, number, rest) == "https://api.github.com/repos/"@ + repo
            + "/issues/"@ + decimal(number as nat) + rest,
{
    reveal_strlit("https://api.github.com");
    reveal_strlit("/repos/");
    reveal_strlit("https://api.github.com/repos/");
    let base = "https://api.github.com/repos/"@;
    assert(base =~= "https://api.github.com"@ + "/repos/"@);
    let n = "/issues/"@ + decimal(number as nat);
    assert(repo_url(repo, rest) =~= base + repo + rest);
    assert(repo_url(repo, n) =~= base + repo + "/issues/"@ + decimal(number as nat));
    assert(repo_url(repo, n + rest) =~= base + repo + "/issues/"@ + decimal(number as nat) + rest);
}

/// A request without parameters has the method, address and body that are given.
pub proof fn law_plain_request(method: Method, url: Seq<char>, body: Option<JsonView>)
    ensures
        plain_request(method, url, body).method == method,
        plain_request(method, url, body).url == url,
        plain_request(method, url, body).params.len() == 0,
        plain_request(method, url, body).body == body,
{
}

/// An entry is written as an issue with its title, its body and its labels.
pub proof fn law_issue_payload(e: EntryView, json: Seq<char>)
    ensures
        issue_payload(e, json) is Object,
        issue_payload(e, json)->Object_0.len() == 3,
        issue_payload(e, json)->Object_0[0] == ("title"@, JsonView::Text(title_text(e))),
        issue_payload(e, json)->Object_0[1] == ("body"@, JsonView::Text(body_text(e, json))),
        issue_payload(e, json)->Object_0[2] == ("labels"@, text_array(entry_labels(e))),
{
}

/// Creating an entry posts it to the issues of the repository; updating one patches its issue
/// with the same payload; fetching one gets its issue.
pub proof fn law_entry_requests(repo: Seq<char>, number: u64, e: EntryView, json: Seq<char>)
    ensures
        create_ask(repo, e, json).method == Method::Post,
        create_ask(repo, e, json).url == "https://api.github.com/repos/"@ + repo + "/issues"@,
        create_ask(repo, e, json).params.len() == 0,
        create_ask(repo, e, json).body == Some(issue_payload(e, json)),
        update_ask(repo, number, e, json).method == Method::Patch,
        update_ask(repo, number, e, json).url == "https://api.github.com/repos/"@ + repo
            + "/issues/"@ + decimal(number as nat),
        update_ask(repo, number, e, json).params.len() == 0,
        update_ask(repo, number, e, json).body == Some(issue_payload(e, json)),
        fetch_ask(repo, number).method == Method::Get,
        fetch_ask(repo, number).url == "https://api.github.com/repos/"@ + repo + "/issues/"@
            + decimal(number as nat),
        fetch_ask(repo, number).params.len() == 0,
        fetch_ask(repo, number).body is None,
{
    law_addresses(repo, "/issues"@, number);
}

/// Archiving an entry comments on its issue and closes it: the comment holds the text that is
/// given, and closing changes the state alone. Labels are put as a whole.
pub proof fn law_issue_requests(
    repo: Seq<char>,
    number: u64,
    body: Seq<char>,
    labels: Seq<Seq<char>>,
)
    ensures
        close_ask(repo, number).method == Method::Patch,
        close_ask(repo, number).url == "https://api.github.com/repos/"@ + repo + "/issues/"@
            + decimal(number as nat),
        close_ask(repo, number).params.len() == 0,
        close_ask(repo, number).body == Some(
            JsonView::Object(seq![("state"@, JsonView::Text("closed"@))]),
        ),
        comment_ask(repo, number, body).method == Method::Post,
        comment_ask(repo, number, body).url == "https://api.github.com/repos/"@ + repo
            + "/issues/"@ + decimal(number as nat) + "/comments"@,
        comment_ask(repo, number, body).params.len() == 0,
        comment_ask(repo, number, body).body == Some(
            JsonView::Object(seq![("body"@, JsonView::Text(body))]),
        ),
        labels_ask(repo, number, labels).method == Method::Put,
        labels_ask(repo, number, labels).url == "https://api.github.com/repos/"@ + repo
            + "/issues/"@ + decimal(number as nat) + "/labels"@,
        labels_ask(repo, number, labels).params.len() == 0,
        labels_ask(repo, number, labels).body == Some(
            JsonView::Object(seq![("labels"@, text_array(labels))]),
        ),
{
    law_addresses(repo, "/comments"@, number);
    law_addresses(repo, "/labels"@, number);
}

/// Deleting an issue posts the mutation with the node of the issue.
pub proof fn law_delete_request(node_id: Seq<char>)
    ensures
        delete_ask(node_id).method == Method::Post,
        delete_ask(node_id).url == "https://api.github.com/graphql"@,
        delete_ask(node_id).params.len() == 0,
        delete_ask(node_id).body == Some(
            JsonView::Object(
                seq![
                    ("query"@, JsonView::Text(DELETE_MUTATION@)),
                    (
                        "variables"@,
                        JsonView::Object(seq![("issueId"@, JsonView::Text(node_id))]),
                    ),
                ],
            ),
        ),
{
}

/// A label is there exactly when one of the labels listed has its name.
pub proof fn law_has_label(items: Seq<JsonView>, label: Seq<char>)
    ensures
        has_label(items, label) <==> exists|i: int|
            0 <= i < items.len() && (#[trigger] items[i]).text_field("name"@) == Some(label),
{
}

/// Exactly the labels that are not listed are created, one by one and in their order, in grey.
pub proof fn law_labels_created(repo: Seq<char>, labels: Seq<Seq<char>>, items: Seq<JsonView>)
    ensures
        selects(
            labels,
            |l: Seq<char>|
                forall|i: int|
                    0 <= i < items.len() ==> (#[trigger] items[i]).text_field("name"@) != Some(l),
            |l: Seq<char>|
                RequestView {
                    method: Method::Post,
                    url: "https://api.github.com/repos/"@ + repo + "/labels"@,
                    params: seq![],
                    body: Some(
                        JsonView::Object(
                            seq![
                                ("name"@, JsonView::Text(l)),
                                ("color"@, JsonView::Text("ededed"@)),
                            ],
                        ),
                    ),
                },
            label_asks(repo, labels, items),
        ),
    decreases labels.len(),
{
    let keep = |l: Seq<char>|
        forall|i: int|
            0 <= i < items.len() ==> (#[trigger] items[i]).text_field("name"@) != Some(l);
    let made = |l: Seq<char>|
        RequestView {
            method: Method::Post,
            url: "https://api.github.com/repos/"@ + repo + "/labels"@,
            params: seq![],
            body: Some(
                JsonView::Object(
                    seq![("name"@, JsonView::Text(l)), ("color"@, JsonView::Text("ededed"@))],
                ),
            ),
        };
    if labels.len() == 0 {
        lemma_selects_none(labels, keep, made);
    } else {
        law_labels_created(repo, labels.drop_last(), items);
        law_addresses(repo, "/labels"@, 0);
        assert(made(labels.last()) =~= new_label_ask(repo, labels.last()));
        lemma_selects_one_more(labels, keep, made, label_asks(repo, labels.drop_last(), items));
    }
}

/// An entry is labelled with its type, its tier and as active, and then with its user and its
/// agent, as far as it has them.
pub proof fn law_entry_labels(e: EntryView)
    ensures
        entry_labels(e).len() == 3 + if e.user_id is Some {
            1int
        } else {
            0
        } + if e.agent_id is Some {
            1int
        } else {
            0
        },
        entry_labels(e)[0] == "type:"@ + e.memory_type.name(),
        entry_labels(e)[1] == "tier:"@ + e.tier().name(),
        entry_labels(e)[2] == "status:active"@,
        e.user_id matches Some(u) ==> entry_labels(e)[3] == "user:"@ + u,
        e.agent_id matches Some(a) ==> entry_labels(e).last() == "agent:"@ + a,
{
}

/// The labels that a repository must have.
pub proof fn law_bootstrap_labels()
    ensures
        BOOTSTRAP_LABELS@.len() == 9,
        BOOTSTRAP_LABELS@[0]@ == "type:episodic"@,
        BOOTSTRAP_LABELS@[1]@ == "type:semantic"@,
        BOOTSTRAP_LABELS@[2]@ == "type:procedural"@,
        BOOTSTRAP_LABELS@[3]@ == "type:working"@,
        BOOTSTRAP_LABELS@[4]@ == "tier:hot"@,
        BOOTSTRAP_LABELS@[5]@ == "tier:warm"@,
        BOOTSTRAP_LABELS@[6]@ == "tier:cold"@,
        BOOTSTRAP_LABELS@[7]@ == "status:active"@,
        BOOTSTRAP_LABELS@[8]@ == "status:superseded"@,
{
}

/// The labels by which memories are found.
pub proof fn law_label_texts(e: EntryView, id: Seq<char>)
    ensures
        label_of_type(e.memory_type) == "type:"@ + e.memory_type.name(),
        label_of_tier(e.tier()) == "tier:"@ + e.tier().name(),
        label_of_user(id) == "user:"@ + id,
        label_of_agent(id) == "agent:"@ + id,
{
}

} // verus!

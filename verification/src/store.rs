//! Memory entries as GitHub Issues: what is asked of GitHub, and what its answers mean.
//!
//! Every memory entry maps to one GitHub Issue in the configured repository. Each
//! operation is a request, or a chain of requests, of which each follows from the reply
//! to the one before.

use vstd::hash_set::StringHashSet;
use vstd::prelude::*;
use vstd::string::StringExecFns;

use crate::api::{
    api_failure, check_response, decode_failure, failure_message, get, items_in, plain_request,
    reply_items, reply_json, request_views, send, Method, Reply, Request, RequestView,
};
use crate::error::{MemoryError, Result};
use crate::json::{
    array_of_texts, json_in, json_views, object, object_of, text, text_array, Json, JsonView,
};
use crate::labels::{entry_labels, labels_for_entry};
use crate::models::{refused, EntryView, MemoryEntry};
use crate::schema::{
    block_end, block_start, body_reads, body_text, content_in, content_stays, decodes_all, encoded,
    encodes_all, entry_of, format_body, format_title, header_line, helper_only, law_round_trip,
    meta_of, meta_text, parse_body, title_text, visible_part, MemoryMeta,
};
use crate::text::{concat, contains, decimal, number_text, texts};

pub mod testutil;

verus! {

/// The GraphQL mutation that deletes an issue.
pub const DELETE_MUTATION: &'static str =
    "\n            mutation DeleteIssue($issueId: ID!) {\n                deleteIssue(input: { issueId: $issueId }) {\n                    repository { nameWithOwner }\n                }\n            }\n        ";

// ---------------------------------------------------------------------------
// Models
// ---------------------------------------------------------------------------

/// The address of something in a repository.
pub open spec fn repo_url(repo: Seq<char>, rest: Seq<char>) -> Seq<char> {
    "https://api.github.com"@ + ("/repos/"@ + repo + rest)
}

/// The address of an issue.
pub open spec fn issue_url(repo: Seq<char>, number: u64) -> Seq<char> {
    repo_url(repo, "/issues/"@ + decimal(number as nat))
}

/// The address of something that belongs to an issue.
pub open spec fn issue_part_url(repo: Seq<char>, number: u64, part: Seq<char>) -> Seq<char> {
    repo_url(repo, "/issues/"@ + decimal(number as nat) + part)
}

/// What is sent to create or overwrite the issue of an entry whose metadata is `json`.
pub open spec fn issue_payload(e: EntryView, json: Seq<char>) -> JsonView {
    JsonView::Object(
        seq![
            ("title"@, JsonView::Text(title_text(e))),
            ("body"@, JsonView::Text(body_text(e, json))),
            ("labels"@, text_array(entry_labels(e))),
        ],
    )
}

/// The request that creates the issue of an entry.
pub open spec fn create_ask(repo: Seq<char>, e: EntryView, json: Seq<char>) -> RequestView {
    plain_request(Method::Post, repo_url(repo, "/issues"@), Some(issue_payload(e, json)))
}

/// The request that overwrites the issue `number` with an entry.
pub open spec fn update_ask(
    repo: Seq<char>,
    number: u64,
    e: EntryView,
    json: Seq<char>,
) -> RequestView {
    plain_request(Method::Patch, issue_url(repo, number), Some(issue_payload(e, json)))
}

/// The request for an issue.
pub open spec fn fetch_ask(repo: Seq<char>, number: u64) -> RequestView {
    plain_request(Method::Get, issue_url(repo, number), None)
}

/// The request that closes an issue.
pub open spec fn close_ask(repo: Seq<char>, number: u64) -> RequestView {
    plain_request(
        Method::Patch,
        issue_url(repo, number),
        Some(JsonView::Object(seq![("state"@, JsonView::Text("closed"@))])),
    )
}

/// The request that adds a comment to an issue.
pub open spec fn comment_ask(repo: Seq<char>, number: u64, body: Seq<char>) -> RequestView {
    plain_request(
        Method::Post,
        issue_part_url(repo, number, "/comments"@),
        Some(JsonView::Object(seq![("body"@, JsonView::Text(body))])),
    )
}

/// The request that replaces the labels of an issue.
pub open spec fn labels_ask(repo: Seq<char>, number: u64, labels: Seq<Seq<char>>) -> RequestView {
    plain_request(
        Method::Put,
        issue_part_url(repo, number, "/labels"@),
        Some(JsonView::Object(seq![("labels"@, text_array(labels))])),
    )
}

/// The request that deletes the issue with the node identifier `node_id`.
pub open spec fn delete_ask(node_id: Seq<char>) -> RequestView {
    plain_request(
        Method::Post,
        "https://api.github.com/graphql"@,
        Some(
            JsonView::Object(
                seq![
                    ("query"@, JsonView::Text(DELETE_MUTATION@)),
                    (
                        "variables"@,
                        JsonView::Object(seq![("issueId"@, JsonView::Text(node_id))]),
                    ),
                ],
            ),
        ),
    )
}

/// The request that creates a label.
pub open spec fn new_label_ask(repo: Seq<char>, label: Seq<char>) -> RequestView {
    plain_request(
        Method::Post,
        repo_url(repo, "/labels"@),
        Some(
            JsonView::Object(
                seq![("name"@, JsonView::Text(label)), ("color"@, JsonView::Text("ededed"@))],
            ),
        ),
    )
}

/// One of the items is the label `label`.
pub open spec fn has_label(items: Seq<JsonView>, label: Seq<char>) -> bool {
    exists|i: int|
        0 <= i < items.len() && (#[trigger] items[i]).text_field("name"@) == Some(label)
}

/// The requests that create those labels that are not among the items.
pub open spec fn label_asks(
    repo: Seq<char>,
    labels: Seq<Seq<char>>,
    items: Seq<JsonView>,
) -> Seq<RequestView>
    decreases labels.len(),
{
    if labels.len() == 0 {
        seq![]
    } else {
        let before = label_asks(repo, labels.drop_last(), items);
        if has_label(items, labels.last()) {
            before
        } else {
            before.push(new_label_ask(repo, labels.last()))
        }
    }
}

/// The node identifier in the body of a reply.
pub open spec fn node_id_in(text: Seq<char>) -> Option<Seq<char>> {
    match json_in(text) {
        Some(j) => j.text_field("node_id"@),
        None => None,
    }
}

/// The message of the first error in a list of GraphQL errors.
pub open spec fn graphql_message(errors: JsonView) -> Seq<char> {
    let message = match errors.items() {
        Some(items) => if items.len() > 0 {
            items[0].text_field("message"@)
        } else {
            None
        },
        None => None,
    };
    match message {
        Some(m) => m,
        None => "GraphQL error"@,
    }
}

/// The text of the member `key`, or an empty text.
pub open spec fn text_or_empty(j: JsonView, key: Seq<char>) -> Seq<char> {
    match j.text_field(key) {
        Some(t) => t,
        None => seq![],
    }
}

// ---------------------------------------------------------------------------
// Laws
// ---------------------------------------------------------------------------

/// Where all labels exist, none is created: to ensure the labels a second time does
/// nothing.
pub proof fn law_labels_ensured_once(
    repo: Seq<char>,
    labels: Seq<Seq<char>>,
    items: Seq<JsonView>,
)
    requires
        forall|i: int| 0 <= i < labels.len() ==> has_label(items, #[trigger] labels[i]),
    ensures
        label_asks(repo, labels, items) == Seq::<RequestView>::empty(),
    decreases labels.len(),
{
    if labels.len() > 0 {
        assert(labels.last() == labels[labels.len() - 1]);
        assert forall|i: int| 0 <= i < labels.drop_last().len() implies has_label(
            items,
            #[trigger] labels.drop_last()[i],
        ) by {
            assert(labels.drop_last()[i] == labels[i]);
        }
        law_labels_ensured_once(repo, labels.drop_last(), items);
    }
}

/// What was written as an issue is read back: where GitHub hands out the body that was
/// sent, its metadata block holds the JSON that was put in, and with the metadata of the
/// entry it makes up the entry again, under the number of the issue.
pub proof fn law_read_back(e: EntryView, json: Seq<char>, issue: JsonView, number: u64)
    requires
        issue.text_field("body"@) == Some(body_text(e, json)),
        !contains(visible_part(e.content, e.entities, e.tags), block_start()),
        !contains(json, block_end()),
        content_stays(e.content),
        helper_only(header_line("**Entities:**"@, e.entities)),
        helper_only(header_line("**Tags:**"@, e.tags)),
    ensures
        meta_text(text_or_empty(issue, "body"@)) == Some(json),
        (EntryView {
            issue_number: Some(number),
            ..entry_of(content_in(text_or_empty(issue, "body"@)), meta_of(e))
        }) == (EntryView { issue_number: Some(number), ..e }),
{
    law_round_trip(e, json);
}

/// Each label that does not exist is created.
pub proof fn law_missing_label_created(
    repo: Seq<char>,
    labels: Seq<Seq<char>>,
    items: Seq<JsonView>,
    label: Seq<char>,
)
    requires
        labels.contains(label),
        !has_label(items, label),
    ensures
        label_asks(repo, labels, items).contains(new_label_ask(repo, label)),
    decreases labels.len(),
{
    let before = label_asks(repo, labels.drop_last(), items);
    let asks = label_asks(repo, labels, items);
    if labels.last() == label {
        assert(asks.last() == new_label_ask(repo, label));
        assert(asks[asks.len() - 1] == new_label_ask(repo, label));
    } else {
        let i = choose|i: int| 0 <= i < labels.len() && labels[i] == label;
        assert(labels.drop_last()[i] == label);
        law_missing_label_created(repo, labels.drop_last(), items, label);
        let k = choose|k: int| 0 <= k < before.len() && before[k] == new_label_ask(repo, label);
        assert(asks[k] == new_label_ask(repo, label));
    }
}

// ---------------------------------------------------------------------------
// GitHubIssuesStore
// ---------------------------------------------------------------------------

/// The store that keeps memory entries as GitHub Issues.
#[derive(Debug)]
pub struct GitHubIssuesStore {
    repo: String,
    token: String,
}

impl GitHubIssuesStore {
    /// `"owner/repo"` of the repository.
    pub closed spec fn repository(self) -> Seq<char> {
        self.repo@
    }

    /// The access token.
    pub closed spec fn secret(self) -> Seq<char> {
        self.token@
    }

    /// A store for the repository `repo`, with the access token `token`.
    pub fn new(repo: &str, token: &str) -> (r: GitHubIssuesStore)
        ensures
            r.repository() == repo@,
            r.secret() == token@,
    {
        GitHubIssuesStore { repo: repo.to_owned(), token: token.to_owned() }
    }

    /// `"owner/repo"` of the repository.
    pub fn repo(&self) -> (r: &str)
        ensures
            r@ == self.repository(),
    {
        self.repo.as_str()
    }

    /// The access token.
    pub fn token(&self) -> (r: &str)
        ensures
            r@ == self.secret(),
    {
        self.token.as_str()
    }

    /// Builds an absolute GitHub REST API URL from a path fragment.
    pub fn api_url(&self, path: &str) -> (r: String)
        ensures
            r@ == "https://api.github.com"@ + path@,
    {
        concat("https://api.github.com", path)
    }

    fn repo_address(&self, rest: &str) -> (r: String)
        ensures
            r@ == repo_url(self.repository(), rest@),
    {
        let mut path = concat("/repos/", self.repo.as_str());
        path.append(rest);
        self.api_url(path.as_str())
    }

    fn issue_address(&self, number: u64, part: &str) -> (r: String)
        ensures
            r@ == issue_part_url(self.repository(), number, part@),
            part@.len() == 0 ==> r@ == issue_url(self.repository(), number),
    {
        let mut rest = concat("/issues/", number_text(number).as_str());
        rest.append(part);
        assert(part@.len() == 0 ==> rest@ =~= "/issues/"@ + decimal(number as nat));
        self.repo_address(rest.as_str())
    }

    fn issue_address_alone(&self, number: u64) -> (r: String)
        ensures
            r@ == issue_url(self.repository(), number),
    {
        let empty = String::new();
        self.issue_address(number, empty.as_str())
    }

    fn payload<F: Fn(&MemoryMeta) -> String>(&self, entry: &MemoryEntry, encode: F) -> (r: Json)
        requires
            encodes_all(encode),
        ensures
            exists|json: Seq<char>|
                #[trigger] encoded(encode, entry@, json) && r@ == issue_payload(entry@, json),
    {
        let title = format_title(entry);
        let body = format_body(entry, encode);
        let labels = labels_for_entry(entry);
        let ghost json = choose|json: Seq<char>| #[trigger]
            encoded(encode, entry@, json) && body@ == body_text(entry@, json);
        let mut members: Vec<(String, Json)> = Vec::new();
        members.push(("title".to_owned(), Json::Text(title)));
        members.push(("body".to_owned(), Json::Text(body)));
        members.push(("labels".to_owned(), array_of_texts(&labels)));
        let r = object(members);
        assert(r@->Object_0 =~= issue_payload(entry@, json)->Object_0);
        assert(encoded(encode, entry@, json));
        r
    }

    // --- create ---

    /// The request that persists a new entry, whose metadata `encode` writes as JSON.
    pub fn create<F: Fn(&MemoryMeta) -> String>(&self, entry: &MemoryEntry, encode: F) -> (r:
        Request)
        requires
            encodes_all(encode),
        ensures
            exists|json: Seq<char>| #[trigger]
                encoded(encode, entry@, json) && r@ == create_ask(
                    self.repository(),
                    entry@,
                    json,
                ),
    {
        send(Method::Post, self.repo_address("/issues"), self.payload(entry, encode))
    }

    /// Takes the number of the new issue from the reply into the entry.
    pub fn finish_create(&self, entry: &mut MemoryEntry, reply: &Reply) -> (r: Result<()>)
        ensures
            if !reply.succeeded() {
                api_failure(r, reply.status, failure_message(reply.text@)) && final(entry)@
                    == old(entry)@
            } else {
                match json_in(reply.text@) {
                    None => decode_failure(r) && final(entry)@ == old(entry)@,
                    Some(j) => match j.field("number"@) {
                        Some(JsonView::Number(crate::json::Number::Unsigned(n))) => r is Ok
                            && final(entry)@ == (EntryView {
                            issue_number: Some(n),
                            ..old(entry)@
                        }),
                        _ => refused(r, "GitHub response missing 'number'"@) && final(entry)@ == old(
                            entry,
                        )@,
                    },
                }
            },
    {
        match check_response(reply) {
            Err(e) => return Err(e),
            Ok(_) => {},
        }
        let json = match reply_json(reply) {
            Err(e) => return Err(e),
            Ok(j) => j,
        };
        let number: Option<u64> = match json.get("number") {
            Some(n) => n.as_u64(),
            None => None,
        };
        match number {
            Some(n) => {
                entry.issue_number = Some(n);
                Ok(())
            },
            None => Err(MemoryError::InvalidInput("GitHub response missing 'number'".to_owned())),
        }
    }

    // --- get ---

    /// The request for the issue of an entry.
    pub fn get(&self, issue_number: u64) -> (r: Request)
        ensures
            r@ == fetch_ask(self.repository(), issue_number),
    {
        get(self.issue_address_alone(issue_number))
    }

    /// The entry in the reply to [`GitHubIssuesStore::get`], whose metadata `decode` reads
    /// from JSON; none if the issue does not exist (404) or was deleted (410).
    pub fn finish_get<F: Fn(&str) -> Result<MemoryMeta>>(
        &self,
        issue_number: u64,
        reply: &Reply,
        decode: F,
    ) -> (r: Result<Option<MemoryEntry>>)
        requires
            decodes_all(decode),
        ensures
            if reply.status == 404 || reply.status == 410 {
                r is Ok && r->Ok_0 is None
            } else if !reply.succeeded() {
                api_failure(r, reply.status, failure_message(reply.text@))
            } else {
                match json_in(reply.text@) {
                    None => decode_failure(r),
                    Some(j) => exists|read: Result<MemoryEntry>| #[trigger]
                        body_reads(decode, text_or_empty(j, "body"@), read) && match read {
                            Err(e) => r == Err::<Option<MemoryEntry>, MemoryError>(e),
                            Ok(e) => r is Ok && r->Ok_0 is Some && r->Ok_0->0@ == (EntryView {
                                issue_number: Some(issue_number),
                                ..e@
                            }),
                        },
                }
            },
    {
        if reply.status == 404 || reply.status == 410 {
            return Ok(None);
        }
        match check_response(reply) {
            Err(e) => return Err(e),
            Ok(_) => {},
        }
        let json = match reply_json(reply) {
            Err(e) => return Err(e),
            Ok(j) => j,
        };
        let title: String = member_text(&json, "title");
        let body: String = member_text(&json, "body");
        let read = parse_body(title.as_str(), body.as_str(), decode);
        let ghost outcome = read;
        assert(body_reads(decode, text_or_empty(json@, "body"@), outcome));
        match read {
            Err(e) => Err(e),
            Ok(entry) => {
                let mut entry = entry;
                entry.issue_number = Some(issue_number);
                Ok(Some(entry))
            },
        }
    }

    // --- update ---

    /// The request that overwrites the stored content of an entry, whose metadata `encode`
    /// writes as JSON. Refused for an entry that was never created.
    pub fn update<F: Fn(&MemoryMeta) -> String>(&self, entry: &MemoryEntry, encode: F) -> (r:
        Result<Request>)
        requires
            encodes_all(encode),
        ensures
            match entry@.issue_number {
                None => refused(r, "entry has no issue_number; call create first"@),
                Some(n) => r is Ok && exists|json: Seq<char>| #[trigger]
                    encoded(encode, entry@, json) && r->Ok_0@ == update_ask(
                        self.repository(),
                        n,
                        entry@,
                        json,
                    ),
            },
    {
        match entry.issue_number {
            None => Err(
                MemoryError::InvalidInput(
                    "entry has no issue_number; call create first".to_owned(),
                ),
            ),
            Some(n) => {
                let payload = self.payload(entry, encode);
                Ok(send(Method::Patch, self.issue_address_alone(n), payload))
            },
        }
    }

    // --- archive ---

    /// The request that closes an issue, with which archiving it starts.
    pub fn archive(&self, issue_number: u64) -> (r: Request)
        ensures
            r@ == close_ask(self.repository(), issue_number),
    {
        send(
            Method::Patch,
            self.issue_address_alone(issue_number),
            object_of("state", text("closed")),
        )
    }

    /// Once the issue is closed: the request that records the reason as a comment.
    pub fn after_close(&self, issue_number: u64, reason: &str, reply: &Reply) -> (r: Result<
        Request,
    >)
        ensures
            if reply.succeeded() {
                r is Ok && r->Ok_0@ == comment_ask(
                    self.repository(),
                    issue_number,
                    "Archived: "@ + reason@,
                )
            } else {
                api_failure(r, reply.status, failure_message(reply.text@))
            },
    {
        match check_response(reply) {
            Err(e) => Err(e),
            Ok(_) => Ok(self.add_comment(issue_number, concat("Archived: ", reason).as_str())),
        }
    }

    // --- delete ---

    /// The request with which deleting an issue starts: it asks for its node identifier.
    pub fn delete(&self, issue_number: u64) -> (r: Request)
        ensures
            r@ == fetch_ask(self.repository(), issue_number),
    {
        self.get(issue_number)
    }

    /// Once the issue is fetched: the request that deletes it.
    pub fn after_fetch(&self, reply: &Reply) -> (r: Result<Request>)
        ensures
            if !reply.succeeded() {
                api_failure(r, reply.status, failure_message(reply.text@))
            } else if json_in(reply.text@) is None {
                decode_failure(r)
            } else {
                match node_id_in(reply.text@) {
                    None => refused(r, "GitHub response missing 'node_id'"@),
                    Some(node_id) => r is Ok && r->Ok_0@ == delete_ask(node_id),
                }
            },
    {
        match check_response(reply) {
            Err(e) => return Err(e),
            Ok(_) => {},
        }
        let json = match reply_json(reply) {
            Err(e) => return Err(e),
            Ok(j) => j,
        };
        match json.text_at("node_id") {
            None => Err(MemoryError::InvalidInput("GitHub response missing 'node_id'".to_owned())),
            Some(node_id) => {
                let mut members: Vec<(String, Json)> = Vec::new();
                members.push(("query".to_owned(), text(DELETE_MUTATION)));
                members.push(("variables".to_owned(), object_of("issueId", text(node_id))));
                let payload = object(members);
                assert(payload@->Object_0 =~= delete_ask(node_id@).body->0->Object_0);
                Ok(
                    send(Method::Post, "https://api.github.com/graphql".to_owned(), payload),
                )
            },
        }
    }

    /// Whether the issue was deleted. GraphQL tells of errors in the body even where the
    /// status is a success.
    pub fn finish_delete(&self, reply: &Reply) -> (r: Result<()>)
        ensures
            if !reply.succeeded() {
                api_failure(r, reply.status, failure_message(reply.text@))
            } else {
                match json_in(reply.text@) {
                    None => decode_failure(r),
                    Some(j) => match j.field("errors"@) {
                        Some(errors) => api_failure(r, 200, graphql_message(errors)),
                        None => r is Ok,
                    },
                }
            },
    {
        match check_response(reply) {
            Err(e) => return Err(e),
            Ok(_) => {},
        }
        let json = match reply_json(reply) {
            Err(e) => return Err(e),
            Ok(j) => j,
        };
        match json.get("errors") {
            None => Ok(()),
            Some(errors) => {
                let mut message: String = "GraphQL error".to_owned();
                if let Some(items) = errors.as_array() {
                    if items.len() > 0 {
                        assert(json_views(items@)[0] == items@[0]@);
                        if let Some(m) = items[0].text_at("message") {
                            message = m.to_owned();
                        }
                    }
                }
                Err(MemoryError::GithubApi { status: 200, message })
            },
        }
    }

    // --- comments and labels ---

    /// The request that appends a comment to an issue.
    pub fn add_comment(&self, issue_number: u64, body: &str) -> (r: Request)
        ensures
            r@ == comment_ask(self.repository(), issue_number, body@),
    {
        send(
            Method::Post,
            self.issue_address(issue_number, "/comments"),
            object_of("body", text(body)),
        )
    }

    /// The request that replaces the label set of an issue.
    pub fn set_labels(&self, issue_number: u64, labels: &Vec<String>) -> (r: Request)
        ensures
            r@ == labels_ask(self.repository(), issue_number, texts(labels@)),
    {
        send(
            Method::Put,
            self.issue_address(issue_number, "/labels"),
            object_of("labels", array_of_texts(labels)),
        )
    }

    /// The request for the labels that exist (the first hundred).
    pub fn list_labels(&self) -> (r: Request)
        ensures
            r@ == plain_request(
                Method::Get,
                repo_url(self.repository(), "/labels?per_page=100"@),
                None,
            ),
    {
        get(self.repo_address("/labels?per_page=100"))
    }

    /// The requests that create those of the labels that the reply to
    /// [`GitHubIssuesStore::list_labels`] does not list.
    pub fn ensure_labels(&self, labels: &Vec<String>, reply: &Reply) -> (r: Result<Vec<Request>>)
        ensures
            if !reply.succeeded() {
                api_failure(r, reply.status, failure_message(reply.text@))
            } else {
                match items_in(reply.text@) {
                    None => decode_failure(r),
                    Some(items) => r is Ok && request_views(r->Ok_0@) == label_asks(
                        self.repository(),
                        texts(labels@),
                        items,
                    ),
                }
            },
    {
        match check_response(reply) {
            Err(e) => return Err(e),
            Ok(_) => {},
        }
        let items = match reply_items(reply) {
            Err(e) => return Err(e),
            Ok(items) => items,
        };
        let ghost all = texts(labels@);
        let ghost views = json_views(items@);
        let names = label_names(&items);
        let mut asks: Vec<Request> = Vec::new();
        let mut i: usize = 0;
        assert(request_views(asks@) =~= label_asks(self.repository(), all.take(0), views));
        while i < labels.len()
            invariant
                i <= labels.len(),
                all == texts(labels@),
                forall|label: Seq<char>| #[trigger]
                    names@.contains(label) <==> has_label(views, label),
                request_views(asks@) == label_asks(self.repository(), all.take(i as int), views),
            decreases labels.len() - i,
        {
            let ghost before = asks@;
            if !names.contains(labels[i].as_str()) {
                asks.push(self.new_label(labels[i].as_str()));
            }
            i += 1;
            proof {
                let now = all.take(i as int);
                assert(now.drop_last() =~= all.take(i - 1));
                assert(now.last() == labels@[i - 1]@);
                if has_label(views, now.last()) {
                    assert(asks@ =~= before);
                } else {
                    assert(request_views(asks@) =~= request_views(before).push(
                        new_label_ask(self.repository(), now.last()),
                    ));
                }
            }
        }
        assert(all.take(i as int) =~= all);
        Ok(asks)
    }

    fn new_label(&self, label: &str) -> (r: Request)
        ensures
            r@ == new_label_ask(self.repository(), label@),
    {
        let mut members: Vec<(String, Json)> = Vec::new();
        members.push(("name".to_owned(), text(label)));
        members.push(("color".to_owned(), text("ededed")));
        let payload = object(members);
        assert(payload@->Object_0 =~= new_label_ask(
            self.repository(),
            label@,
        ).body->0->Object_0);
        send(Method::Post, self.repo_address("/labels"), payload)
    }

    /// Whether a label was created. That it already exists (422) counts as a success.
    pub fn after_new_label(&self, reply: &Reply) -> (r: Result<()>)
        ensures
            if reply.succeeded() || reply.status == 422 {
                r is Ok
            } else {
                api_failure(r, reply.status, failure_message(reply.text@))
            },
    {
        if reply.status == 422 {
            Ok(())
        } else {
            check_response(reply)
        }
    }
}

/// The text of the member `key`, or an empty text.
pub(crate) fn member_text(json: &Json, key: &str) -> (r: String)
    ensures
        r@ == text_or_empty(json@, key@),
{
    match json.text_at(key) {
        Some(t) => t.to_owned(),
        None => {
            let empty = String::new();
            assert(empty@ =~= seq![]);
            empty
        },
    }
}

/// The names of the labels among the items.
fn label_names(items: &Vec<Json>) -> (r: StringHashSet)
    ensures
        forall|label: Seq<char>| #[trigger]
            r@.contains(label) <==> has_label(json_views(items@), label),
{
    let ghost views = json_views(items@);
    let mut r: StringHashSet = StringHashSet::new();
    let mut i: usize = 0;
    while i < items.len()
        invariant
            i <= items.len(),
            views == json_views(items@),
            forall|label: Seq<char>| #[trigger]
                r@.contains(label) <==> exists|j: int|
                    0 <= j < i && (#[trigger] views[j]).text_field("name"@) == Some(label),
        decreases items.len() - i,
    {
        let ghost before = r@;
        assert(views[i as int] == items@[i as int]@);
        if let Some(name) = items[i].text_at("name") {
            r.insert(name.to_owned());
        }
        i += 1;
        proof {
            assert forall|label: Seq<char>| #[trigger]
                r@.contains(label) <==> exists|j: int|
                    0 <= j < i && (#[trigger] views[j]).text_field("name"@) == Some(label) by {
                if before.contains(label) {
                    let j = choose|j: int|
                        0 <= j < i - 1 && (#[trigger] views[j]).text_field("name"@) == Some(label);
                    assert(views[j].text_field("name"@) == Some(label));
                } else if r@.contains(label) {
                    assert(views[i - 1].text_field("name"@) == Some(label));
                }
            }
        }
    }
    r
}

} // verus!

use vstd::prelude::*;
use vstd::string::*;
use crate::error::{
    failure_message, failure_status, lemma_translated_status_message, spec_message, spec_status,
    translate, ErrorMessage, GatewayError, UpstreamFailure,
};
use crate::json::{append_quoted, error_body, error_json, nodes_json, nodes_json_exec, quoted};
use crate::tree::{TreeError, TreeNode};

verus! {

/// A finished HTTP response: its status code and its JSON body text.
pub struct HttpReply {
    pub status: u16,
    pub body: String,
}

/// Repository metadata as the gateway reports it.
pub struct RepoMetadata {
    pub owner: String,
    pub name: String,
    pub description: Option<String>,
}

/// The view of an optional text field.
pub open spec fn description_view(d: Option<String>) -> Option<Seq<char>> {
    match d {
        Some(s) => Some(s@),
        None => None,
    }
}

/// The metadata body: owner, name and description in one JSON object.
pub open spec fn repo_body(owner: Seq<char>, name: Seq<char>, description: Option<Seq<char>>) -> Seq<
    char,
> {
    "{\"owner\":"@ + quoted(owner) + ",\"name\":"@ + quoted(name) + ",\"description\":"@ + (
    match description {
        Some(d) => quoted(d),
        None => "null"@,
    }) + "}"@
}

/// Builds the metadata body for one repository.
pub fn repo_json(m: &RepoMetadata) -> (r: String)
    ensures
        r@ == repo_body(m.owner@, m.name@, description_view(m.description)),
{
    let mut out = String::new();
    out.append("{\"owner\":");
    append_quoted(&mut out, m.owner.as_str());
    out.append(",\"name\":");
    append_quoted(&mut out, m.name.as_str());
    out.append(",\"description\":");
    match &m.description {
        Some(d) => append_quoted(&mut out, d.as_str()),
        None => out.append("null"),
    }
    out.append("}");
    proof {
        assert(out@ =~= repo_body(m.owner@, m.name@, description_view(m.description)));
    }
    out
}

/// The metadata body always carries the `owner` and `name` fields, each
/// with its requested value: whoever reads a successful reply finds both.
pub proof fn lemma_repo_body_has_fields(owner: Seq<char>, name: Seq<char>, description: Option<
    Seq<char>,
>)
    ensures
        crate::text::contains_seq(
            repo_body(owner, name, description),
            "\"owner\":"@ + quoted(owner),
        ),
        crate::text::contains_seq(
            repo_body(owner, name, description),
            "\"name\":"@ + quoted(name),
        ),
{
    reveal_strlit("{\"owner\":");
    reveal_strlit("\"owner\":");
    reveal_strlit(",\"name\":");
    reveal_strlit("\"name\":");
    let body = repo_body(owner, name, description);
    let owner_field = "\"owner\":"@ + quoted(owner);
    let name_field = "\"name\":"@ + quoted(name);
    assert(body.subrange(1, 1 + owner_field.len() as int) =~= owner_field);
    let j = 10 + quoted(owner).len() as int;
    assert(body.subrange(j, j + name_field.len() as int) =~= name_field);
}

/// The response for a translated failure: its status code and the
/// `{"error": ...}` envelope holding its message.
pub fn error_reply(e: &GatewayError) -> (r: HttpReply)
    ensures
        r.status == spec_status(*e),
        r.body@ == error_body(spec_message(*e)),
{
    let envelope = ErrorMessage::new(e.message());
    HttpReply { status: e.status_code(), body: error_json(envelope.error.as_str()) }
}

/// The metadata route's decision, given the outcome of the one upstream
/// call: 200 with the metadata body on success, else the translated
/// failure status with the error envelope.
pub fn respond_repo(outcome: Result<RepoMetadata, UpstreamFailure>) -> (r: HttpReply)
    ensures
        (outcome matches Ok(m) ==> r.status == 200 && r.body@ == repo_body(
            m.owner@,
            m.name@,
            description_view(m.description),
        )),
        (outcome matches Err(f) ==> r.status == failure_status(f) && r.body@ == error_body(
            failure_message(f),
        )),
{
    match outcome {
        Ok(m) => HttpReply { status: 200, body: repo_json(&m) },
        Err(f) => {
            let ghost f0 = f;
            let e = translate(f);
            proof {
                lemma_translated_status_message(f0, e);
            }
            error_reply(&e)
        },
    }
}

/// The response for a failure of the tree assembly itself.
pub fn tree_error_reply(e: TreeError) -> (r: HttpReply)
    ensures
        r.status == 500,
        e == TreeError::UnknownEntryKind ==> r.body@ == error_body(
            "Internal server error: Unknown item type"@,
        ),
        e == TreeError::DepthExceeded ==> r.body@ == error_body(
            "Internal server error: Directory nesting too deep"@,
        ),
{
    match e {
        TreeError::UnknownEntryKind => HttpReply {
            status: 500,
            body: error_json("Internal server error: Unknown item type"),
        },
        TreeError::DepthExceeded => HttpReply {
            status: 500,
            body: error_json("Internal server error: Directory nesting too deep"),
        },
    }
}

/// The structure route's decision, given the assembled tree or the first
/// upstream failure: 200 with the tree as one JSON array on success,
/// else the translated failure status with the error envelope.
pub fn respond_structure(outcome: Result<Vec<TreeNode>, UpstreamFailure>) -> (r: HttpReply)
    ensures
        (outcome matches Ok(nodes) ==> r.status == 200 && r.body@ == seq!['['] + nodes_json(nodes@)
            + seq![']']),
        (outcome matches Err(f) ==> r.status == failure_status(f) && r.body@ == error_body(
            failure_message(f),
        )),
{
    match outcome {
        Ok(nodes) => HttpReply { status: 200, body: nodes_json_exec(&nodes) },
        Err(f) => {
            let ghost f0 = f;
            let e = translate(f);
            proof {
                lemma_translated_status_message(f0, e);
            }
            error_reply(&e)
        },
    }
}

} // verus!
